use persian_date::engine::{
    gregorian_month_length, gregorian_to_jalali, is_gregorian_leap, is_jalali_leap,
    jalali_month_length, jalali_to_gregorian,
};

#[test]
fn nowruz_2024() {
    assert_eq!(gregorian_to_jalali(2024, 3, 20), (1403, 1, 1));
    assert_eq!(jalali_to_gregorian(1403, 1, 1), (2024, 3, 20));
}

#[test]
fn epoch_day() {
    assert_eq!(gregorian_to_jalali(1970, 1, 1), (1348, 10, 11));
    assert_eq!(jalali_to_gregorian(1348, 10, 11), (1970, 1, 1));
}

#[test]
fn gregorian_month_firsts() {
    assert_eq!(jalali_to_gregorian(1402, 10, 11), (2024, 1, 1));
    assert_eq!(jalali_to_gregorian(1402, 11, 12), (2024, 2, 1));
    assert_eq!(gregorian_to_jalali(2024, 2, 1), (1402, 11, 12));
}

#[test]
fn century_boundaries() {
    assert_eq!(jalali_to_gregorian(1378, 10, 10), (1999, 12, 31));
    assert_eq!(gregorian_to_jalali(1999, 12, 31), (1378, 10, 10));
    assert_eq!(gregorian_to_jalali(2000, 1, 1), (1378, 10, 11));
    assert_eq!(jalali_to_gregorian(1378, 10, 11), (2000, 1, 1));
}

#[test]
fn round_trip_wide_range() {
    for gy in [1i32, 100, 622, 1000, 1582, 1700, 1799, 1899, 1900, 1999, 2000, 2024, 2100, 2399, 3000, 9999] {
        for gm in 1..=12i32 {
            let len = gregorian_month_length(gy, gm);
            for gd in 1..=len {
                let j = gregorian_to_jalali(gy, gm, gd);
                let g = jalali_to_gregorian(j.0, j.1, j.2);
                assert_eq!(g, (gy, gm, gd), "round trip failed for {gy}-{gm}-{gd} via {j:?}");
            }
        }
    }
}

#[test]
fn jalali_round_trip_wide_range() {
    for jy in [1i32, 100, 500, 1000, 1375, 1399, 1400, 1403, 1404, 2000, 5000] {
        for jm in 1..=12i32 {
            let len = jalali_month_length(jy, jm);
            for jd in 1..=len {
                let g = jalali_to_gregorian(jy, jm, jd);
                let j = gregorian_to_jalali(g.0, g.1, g.2);
                assert_eq!(j, (jy, jm, jd), "round trip failed for {jy}/{jm}/{jd} via {g:?}");
            }
        }
    }
}

#[test]
fn leap_years() {
    assert!(is_jalali_leap(1403));
    assert!(is_jalali_leap(1399));
    assert!(is_jalali_leap(1375));
    assert!(!is_jalali_leap(1400));
    assert!(!is_jalali_leap(1402));
    assert!(is_jalali_leap(1342));
    assert!(is_jalali_leap(1408));
    assert!(is_gregorian_leap(2024));
    assert!(is_gregorian_leap(2000));
    assert!(!is_gregorian_leap(1900));
    assert!(!is_gregorian_leap(2023));
}

#[test]
fn leap_matches_esfand_length() {
    for y in 1300..1500 {
        assert_eq!(is_jalali_leap(y), jalali_month_length(y, 12) == 30);
    }
}

#[test]
fn month_lengths() {
    assert_eq!(jalali_month_length(1403, 1), 31);
    assert_eq!(jalali_month_length(1403, 6), 31);
    assert_eq!(jalali_month_length(1403, 7), 30);
    assert_eq!(jalali_month_length(1403, 11), 30);
    assert_eq!(jalali_month_length(1403, 12), 30);
    assert_eq!(jalali_month_length(1402, 12), 29);
    assert_eq!(gregorian_month_length(2024, 2), 29);
    assert_eq!(gregorian_month_length(2023, 2), 28);
    assert_eq!(gregorian_month_length(2024, 4), 30);
    assert_eq!(gregorian_month_length(2024, 12), 31);
}
