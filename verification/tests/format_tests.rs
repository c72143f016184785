use persian_date::format::Format;
use persian_date::structure::PDate;

/// 2024-03-20 12:00:00 UTC, which is 15:30 in Iran: Jalali 1403-01-01.
const MILLIS_NOWRUZ_1403: i64 = 1_710_936_000_000;

#[test]
fn canonical_pattern() {
    let mut d = PDate::from_time_millis(MILLIS_NOWRUZ_1403);
    d.set_hour(7).unwrap();
    d.set_minute(5).unwrap();
    d.set_second(9).unwrap();
    assert_eq!(d.format("%Y-%m-%d %H:%M:%S %:z"), "1403-01-01 07:05:09 +03:30");
    assert_eq!(d.display_string(), "1403-01-01 07:05:09 +03:30");
}

#[test]
fn century_and_short_year() {
    let d = PDate::from_time_millis(MILLIS_NOWRUZ_1403);
    assert_eq!(d.format("%C"), "14");
    assert_eq!(d.format("%y"), "03");
    assert_eq!(d.format("%Y"), "1403");
}

#[test]
fn names_and_day_tokens() {
    let d = PDate::from_time_millis(MILLIS_NOWRUZ_1403);
    assert_eq!(d.format("%B"), "فروردین");
    assert_eq!(d.format("%A"), "چهارشنبه");
    assert_eq!(d.format("%w"), "4");
    assert_eq!(d.format("%j"), "001");
    assert_eq!(d.format("%U"), "00");
    assert_eq!(d.format("%e"), " 1");
}

#[test]
fn clock_tokens() {
    let mut d = PDate::from_time_millis(MILLIS_NOWRUZ_1403);
    d.set_hour(15).unwrap();
    d.set_minute(30).unwrap();
    d.set_second(0).unwrap();
    assert_eq!(d.format("%H"), "15");
    assert_eq!(d.format("%k"), "15");
    assert_eq!(d.format("%I"), "03");
    assert_eq!(d.format("%l"), " 3");
    assert_eq!(d.format("%p"), "ب.ظ");
    assert_eq!(d.format("%P"), "بعد از ظهر");
    d.set_hour(9).unwrap();
    assert_eq!(d.format("%k"), " 9");
    assert_eq!(d.format("%p"), "ق.ظ");
}

#[test]
fn plain_text_is_kept() {
    let d = PDate::from_time_millis(MILLIS_NOWRUZ_1403);
    assert_eq!(d.format("date: %Y/%m"), "date: 1403/01");
    assert_eq!(d.format("no tokens"), "no tokens");
}
