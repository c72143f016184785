use chrono::{Datelike, TimeZone};
use chrono_tz::Tz;
use persian_date::structure::{DateError, PDate, Reader, Setter};

/// 2022-03-20 08:30:00 UTC, which is 12:00 in Iran (+03:30): Jalali 1400-12-29.
const MILLIS_1400_LAST_DAY: i64 = 1_647_765_000_000;

/// 2024-03-20 12:00:00 UTC.
const MILLIS_NOWRUZ_1403: i64 = 1_710_936_000_000;

#[test]
fn from_time_millis_syncs_both_calendars() {
    let d = PDate::from_time_millis(MILLIS_1400_LAST_DAY);
    assert_eq!(d.time_millis(), MILLIS_1400_LAST_DAY);
    assert_eq!((d.grg_year(), d.grg_month(), d.grg_day()), (2022, 3, 20));
    assert_eq!((d.year(), d.month(), d.day()), (1400, 12, 29));
    assert_eq!(d.hour(), 12);
    assert_eq!(d.minute(), 0);
    assert_eq!(d.second(), 0);
}

#[test]
fn from_gregorian_nowruz() {
    let d = PDate::from_gregorian_date(2024, 3, 20);
    assert_eq!((d.grg_year(), d.grg_month(), d.grg_day()), (2024, 3, 20));
    assert_eq!((d.year(), d.month(), d.day()), (1403, 1, 1));
}

#[test]
fn from_jalali_date_round_trips() {
    let d = PDate::from_jalali_date(1403, 1, 1);
    assert_eq!((d.year(), d.month(), d.day()), (1403, 1, 1));
    assert_eq!((d.grg_year(), d.grg_month(), d.grg_day()), (2024, 3, 20));
}

#[test]
fn add_day_rolls_into_new_year() {
    let mut d = PDate::from_time_millis(MILLIS_1400_LAST_DAY);
    assert_eq!((d.year(), d.month(), d.day()), (1400, 12, 29));
    assert_eq!(d.add_days(1), Ok(()));
    assert_eq!((d.year(), d.month(), d.day()), (1401, 1, 1));
}

#[test]
fn add_day_rolls_over_leap_day() {
    let mut d = PDate::from_jalali_date(1403, 12, 30);
    d.set_hour(12).unwrap();
    assert_eq!((d.year(), d.month(), d.day()), (1403, 12, 30));
    assert_eq!(d.add_days(1), Ok(()));
    assert_eq!((d.year(), d.month(), d.day()), (1404, 1, 1));
}

#[test]
fn set_day_rejects_out_of_month() {
    let mut d = PDate::from_jalali_date(1403, 7, 10);
    let before = (
        d.year(), d.month(), d.day(), d.grg_year(), d.grg_month(), d.grg_day(),
        d.hour(), d.minute(), d.second(), d.nano_second(), d.time_millis(),
    );
    assert_eq!(d.set_day(31), Err(DateError::DayOutOfRange { month_days: 30 }));
    let after = (
        d.year(), d.month(), d.day(), d.grg_year(), d.grg_month(), d.grg_day(),
        d.hour(), d.minute(), d.second(), d.nano_second(), d.time_millis(),
    );
    assert_eq!(before, after);
    assert_eq!(d.set_day(32), Err(DateError::DayOutOfRange { month_days: 31 }));
}

#[test]
fn setter_validation_errors() {
    let mut d = PDate::from_time_millis(MILLIS_NOWRUZ_1403);
    assert_eq!(d.set_year(0), Err(DateError::YearOutOfRange));
    assert_eq!(d.set_grg_year(-5), Err(DateError::YearOutOfRange));
    assert_eq!(d.set_month(13), Err(DateError::MonthOutOfRange));
    assert_eq!(d.set_grg_month(0), Err(DateError::MonthOutOfRange));
    assert_eq!(d.set_hour(24), Err(DateError::HourOutOfRange));
    assert_eq!(d.set_minute(60), Err(DateError::MinuteOutOfRange));
    assert_eq!(d.set_second(60), Err(DateError::SecondOutOfRange));
    assert_eq!(d.time_millis(), MILLIS_NOWRUZ_1403);
}

#[test]
fn setters_update_and_stay_synchronized() {
    let mut d = PDate::from_time_millis(MILLIS_NOWRUZ_1403);
    assert_eq!(d.set_year(1400), Ok(()));
    assert_eq!((d.year(), d.month(), d.day()), (1400, 1, 1));
    assert_eq!(d.set_month(7), Ok(()));
    assert_eq!((d.year(), d.month(), d.day()), (1400, 7, 1));
    assert_eq!(d.set_day(15), Ok(()));
    assert_eq!((d.year(), d.month(), d.day()), (1400, 7, 15));
    let expected = persian_date::engine::jalali_to_gregorian(1400, 7, 15);
    assert_eq!((d.grg_year(), d.grg_month() as i32, d.grg_day() as i32),
        (expected.0, expected.1, expected.2));
    let back = persian_date::engine::gregorian_to_jalali(
        d.grg_year(), d.grg_month() as i32, d.grg_day() as i32);
    assert_eq!(back, (1400, 7, 15));
}

#[test]
fn gregorian_setters() {
    let mut d = PDate::from_time_millis(MILLIS_NOWRUZ_1403);
    assert_eq!(d.set_grg_ymd(2022, 3, 20), Ok(()));
    assert_eq!((d.grg_year(), d.grg_month(), d.grg_day()), (2022, 3, 20));
    assert_eq!((d.year(), d.month(), d.day()), (1400, 12, 29));
}

#[test]
fn set_hour_minute_second() {
    let mut d = PDate::from_time_millis(MILLIS_NOWRUZ_1403);
    assert_eq!(d.set_hour(0), Ok(()));
    assert_eq!(d.hour(), 0);
    assert_eq!(d.hour_12(), 0);
    assert!(d.is_mid_night());
    assert_eq!(d.set_hour(15), Ok(()));
    assert_eq!(d.hour(), 15);
    assert_eq!(d.hour_12(), 3);
    assert!(!d.is_mid_night());
    assert_eq!(d.set_minute(42), Ok(()));
    assert_eq!(d.minute(), 42);
    assert_eq!(d.set_second(7), Ok(()));
    assert_eq!(d.second(), 7);
    assert_eq!((d.grg_year(), d.grg_month(), d.grg_day()), (2024, 3, 20));
}

#[test]
fn same_instant_equal_across_zones() {
    let mut a = PDate::from_time_millis(MILLIS_NOWRUZ_1403);
    let mut b = PDate::from_time_millis(MILLIS_NOWRUZ_1403);
    assert_eq!(a.set_time_zone(Tz::UTC), Ok(()));
    assert_eq!(b.set_time_zone(Tz::America__New_York), Ok(()));
    assert!(a == b);
    assert!(!(a < b) && !(b < a));
    assert_ne!(a.hour(), b.hour());
}

#[test]
fn ordering_follows_timestamp() {
    let a = PDate::from_time_millis(MILLIS_1400_LAST_DAY);
    let b = PDate::from_time_millis(MILLIS_NOWRUZ_1403);
    assert!(a < b);
    assert!(b > a);
    assert!(a != b);
    let c = PDate::from_time_millis(MILLIS_NOWRUZ_1403);
    assert!(b == c);
}

#[test]
fn resynchronization_is_idempotent() {
    let mut a = PDate::from_time_millis(MILLIS_NOWRUZ_1403);
    let first = (
        a.year(), a.month(), a.day(), a.grg_year(), a.grg_month(), a.grg_day(),
        a.hour(), a.minute(), a.second(), a.nano_second(), a.time_millis(),
    );
    assert_eq!(a.set_time_millis(MILLIS_NOWRUZ_1403), Ok(()));
    let second = (
        a.year(), a.month(), a.day(), a.grg_year(), a.grg_month(), a.grg_day(),
        a.hour(), a.minute(), a.second(), a.nano_second(), a.time_millis(),
    );
    assert_eq!(first, second);
}

#[test]
fn add_units() {
    let mut d = PDate::from_time_millis(MILLIS_NOWRUZ_1403);
    assert_eq!(d.add_hours(2), Ok(()));
    assert_eq!(d.time_millis(), MILLIS_NOWRUZ_1403 + 2 * 3_600_000);
    assert_eq!(d.add_minutes(30), Ok(()));
    assert_eq!(d.time_millis(), MILLIS_NOWRUZ_1403 + 2 * 3_600_000 + 30 * 60_000);
    assert_eq!(d.add_seconds(5), Ok(()));
    assert_eq!(d.add_weeks(1), Ok(()));
    assert_eq!(
        d.time_millis(),
        MILLIS_NOWRUZ_1403 + 2 * 3_600_000 + 30 * 60_000 + 5_000 + 604_800_000
    );
}

#[test]
fn zero_deltas_are_noops() {
    let mut d = PDate::from_time_millis(MILLIS_NOWRUZ_1403);
    assert_eq!(d.add_days(0), Ok(()));
    assert_eq!(d.add_days(-3), Ok(()));
    assert_eq!(d.add_years(0), Ok(()));
    assert_eq!(d.add_months(0), Ok(()));
    assert_eq!(d.add_weeks(-1), Ok(()));
    assert_eq!(d.time_millis(), MILLIS_NOWRUZ_1403);
}

#[test]
fn add_months_and_years() {
    let mut d = PDate::from_time_millis(MILLIS_NOWRUZ_1403);
    assert_eq!((d.grg_year(), d.grg_month(), d.grg_day()), (2024, 3, 20));
    assert_eq!(d.add_months(1), Ok(()));
    assert_eq!((d.grg_year(), d.grg_month(), d.grg_day()), (2024, 4, 20));
    assert_eq!(d.add_years(2), Ok(()));
    assert_eq!((d.grg_year(), d.grg_month(), d.grg_day()), (2026, 4, 20));
}

#[test]
fn weekday_and_names() {
    // 2024-03-20 was a Wednesday; with Saturday as 0, that is 4.
    let d = PDate::from_time_millis(MILLIS_NOWRUZ_1403);
    assert_eq!(d.day_of_week(), 4);
    assert_eq!(d.grg_day_name(), "Wednesday");
    assert_eq!(d.day_name(), "چهارشنبه");
    assert_eq!(d.month_name(), "فروردین");
    assert_eq!(d.grg_month_name(), "March");
}

#[test]
fn day_of_year_and_month_days() {
    let d = PDate::from_jalali_date(1403, 8, 10);
    assert_eq!(d.day_of_year(), 6 * 31 + 30 + 10);
    assert_eq!(d.month_days(), 30);
    let d2 = PDate::from_jalali_date(1403, 2, 3);
    assert_eq!(d2.day_of_year(), 31 + 3);
    assert_eq!(d2.month_days(), 31);
}

#[test]
fn time_of_day_strings() {
    let mut d = PDate::from_time_millis(MILLIS_NOWRUZ_1403);
    d.set_hour(9).unwrap();
    assert_eq!(d.time_of_day(), "قبل از ظهر");
    assert_eq!(d.short_time_of_day(), "ق.ظ");
    d.set_hour(13).unwrap();
    assert_eq!(d.time_of_day(), "بعد از ظهر");
    assert_eq!(d.short_time_of_day(), "ب.ظ");
}

#[test]
fn format_timezone_offset() {
    let mut d = PDate::from_time_millis(MILLIS_NOWRUZ_1403);
    assert_eq!(d.format_timezone(), "+03:30");
    assert_eq!(d.set_time_zone(Tz::UTC), Ok(()));
    assert_eq!(d.format_timezone(), "+00:00");
}

#[test]
fn now_is_synchronized() {
    let d = PDate::now();
    let back = persian_date::engine::gregorian_to_jalali(
        d.grg_year(), d.grg_month() as i32, d.grg_day() as i32);
    assert_eq!(back, (d.year(), d.month() as i32, d.day() as i32));
    assert!(d.hour() <= 23 && d.minute() <= 59 && d.second() <= 59);
}

#[test]
fn reader_and_setter_traits_are_usable() {
    fn read_via_trait<T: Reader>(t: &T) -> (i32, u32, u32) {
        (Reader::year(t), Reader::month(t), Reader::day(t))
    }
    fn set_via_trait<T: Setter>(t: &mut T) -> Result<(), DateError> {
        Setter::set_hour(t, 6)
    }
    let mut d = PDate::from_jalali_date(1403, 1, 1);
    assert_eq!(read_via_trait(&d), (1403, 1, 1));
    assert_eq!(set_via_trait(&mut d), Ok(()));
    assert_eq!(d.hour(), 6);
}

#[test]
fn default_is_unset() {
    let d = PDate::default();
    assert_eq!(d.time_millis(), 0);
    assert_eq!(d.year(), 0);
    assert_eq!(d.time_zone(), Tz::Iran);
}

#[test]
fn set_time_millis_out_of_range_is_rejected() {
    let mut d = PDate::from_time_millis(MILLIS_NOWRUZ_1403);
    assert_eq!(d.set_time_millis(i64::MAX), Err(DateError::Unrepresentable));
    assert_eq!(d.time_millis(), MILLIS_NOWRUZ_1403);
    assert_eq!(d.set_time_millis(0), Ok(()));
    assert_eq!((d.grg_year(), d.grg_month(), d.grg_day()), (1970, 1, 1));
    assert_eq!((d.year(), d.month(), d.day()), (1348, 10, 11));
    assert_eq!(d.hour(), 3);
    assert_eq!(d.minute(), 30);
}

#[test]
fn hour_12_boundaries() {
    let mut d = PDate::from_time_millis(MILLIS_NOWRUZ_1403);
    d.set_hour(12).unwrap();
    assert_eq!(d.hour_12(), 12);
    d.set_hour(13).unwrap();
    assert_eq!(d.hour_12(), 1);
    d.set_hour(23).unwrap();
    assert_eq!(d.hour_12(), 11);
}

#[test]
fn set_day_accepts_leap_day() {
    let mut d = PDate::from_jalali_date(1403, 12, 1);
    assert_eq!(d.set_day(30), Ok(()));
    assert_eq!((d.year(), d.month(), d.day()), (1403, 12, 30));
    let mut e = PDate::from_jalali_date(1402, 12, 1);
    assert_eq!(e.set_day(30), Err(DateError::DayOutOfRange { month_days: 29 }));
    assert_eq!((e.year(), e.month(), e.day()), (1402, 12, 1));
}

#[test]
fn gregorian_leap_day_setter() {
    let mut d = PDate::from_gregorian_date(2024, 2, 1);
    assert_eq!(d.set_grg_day(29), Ok(()));
    assert_eq!((d.grg_year(), d.grg_month(), d.grg_day()), (2024, 2, 29));
    let mut e = PDate::from_gregorian_date(2023, 2, 1);
    assert_eq!(e.set_grg_day(29), Err(DateError::DayOutOfRange { month_days: 28 }));
}

#[test]
fn set_ymd_composite() {
    let mut d = PDate::from_time_millis(MILLIS_NOWRUZ_1403);
    assert_eq!(d.set_ymd(1399, 11, 22), Ok(()));
    assert_eq!((d.year(), d.month(), d.day()), (1399, 11, 22));
    assert_eq!((d.grg_year(), d.grg_month(), d.grg_day()), (2021, 2, 10));
}

#[test]
fn month_lengths_via_value() {
    let d = PDate::from_jalali_date(1403, 12, 10);
    assert!(d.is_leap());
    assert_eq!(d.month_days(), 30);
    assert_eq!(d.grg_month_days(), 28);
    let e = PDate::from_gregorian_date(2024, 2, 10);
    assert!(e.is_grg_leap());
    assert_eq!(e.grg_month_days(), 29);
}

#[test]
fn add_months_clamps_to_month_end() {
    let mut d = PDate::from_gregorian_date(2024, 1, 31);
    assert_eq!(d.add_months(1), Ok(()));
    assert_eq!((d.grg_year(), d.grg_month(), d.grg_day()), (2024, 2, 29));
    let mut e = PDate::from_gregorian_date(2023, 1, 31);
    assert_eq!(e.add_months(1), Ok(()));
    assert_eq!((e.grg_year(), e.grg_month(), e.grg_day()), (2023, 2, 28));
    let mut f = PDate::from_gregorian_date(2023, 11, 15);
    assert_eq!(f.add_months(3), Ok(()));
    assert_eq!((f.grg_year(), f.grg_month(), f.grg_day()), (2024, 2, 15));
}

#[test]
fn set_ymd_is_atomic_on_failure() {
    let mut d = PDate::from_time_millis(MILLIS_NOWRUZ_1403);
    let before = (
        d.year(), d.month(), d.day(), d.grg_year(), d.grg_month(), d.grg_day(),
        d.hour(), d.minute(), d.second(), d.nano_second(), d.time_millis(),
    );
    assert_eq!(d.set_ymd(1399, 13, 5), Err(DateError::MonthOutOfRange));
    assert_eq!(d.set_ymd(0, 5, 5), Err(DateError::YearOutOfRange));
    assert_eq!(d.set_ymd(1400, 12, 30), Err(DateError::DayOutOfRange { month_days: 29 }));
    assert_eq!(d.set_ymd(1400, 7, 32), Err(DateError::DayOutOfRange { month_days: 31 }));
    let after = (
        d.year(), d.month(), d.day(), d.grg_year(), d.grg_month(), d.grg_day(),
        d.hour(), d.minute(), d.second(), d.nano_second(), d.time_millis(),
    );
    assert_eq!(before, after);
}

#[test]
fn set_grg_ymd_is_atomic_on_failure() {
    let mut d = PDate::from_time_millis(MILLIS_NOWRUZ_1403);
    let before = (d.year(), d.month(), d.day(), d.grg_year(), d.grg_month(), d.grg_day());
    assert_eq!(d.set_grg_ymd(2023, 2, 31), Err(DateError::DayOutOfRange { month_days: 28 }));
    assert_eq!(d.set_grg_ymd(2023, 0, 1), Err(DateError::MonthOutOfRange));
    let after = (d.year(), d.month(), d.day(), d.grg_year(), d.grg_month(), d.grg_day());
    assert_eq!(before, after);
    assert_eq!(d.set_grg_ymd(2024, 2, 29), Ok(()));
    assert_eq!((d.grg_year(), d.grg_month(), d.grg_day()), (2024, 2, 29));
}

#[test]
fn weekday_matches_collaborator() {
    for ms in [MILLIS_NOWRUZ_1403, MILLIS_1400_LAST_DAY, 0i64, 1_000_000_000_000] {
        let d = PDate::from_time_millis(ms);
        let z = Tz::Iran.timestamp_millis_opt(ms).unwrap();
        let w = z.weekday().num_days_from_sunday();
        let rotated = if w == 6 { 0 } else { w + 1 };
        assert_eq!(d.day_of_week(), rotated, "weekday mismatch at {ms}");
    }
}

#[test]
fn setters_preserve_nanosecond() {
    let mut d = PDate::from_time_millis(MILLIS_NOWRUZ_1403 + 123);
    assert_eq!(d.nano_second(), 123_000_000);
    d.set_hour(5).unwrap();
    d.set_minute(6).unwrap();
    d.set_second(7).unwrap();
    d.set_day(2).unwrap();
    d.set_grg_month(5).unwrap();
    assert_eq!(d.nano_second(), 123_000_000);
}
