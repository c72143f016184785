//! The calendar conversion engine: pure integer functions converting a
//! Gregorian (year, month, day) triple to a Jalali one and back, plus the
//! leap-year predicates and month-length tables for both calendars.  The
//! proofs that the two conversions are exact inverses of each other live in
//! the `day_count` module.

use vstd::prelude::*;

verus! {

/// Standard Gregorian leap rule: divisible by 4 and (not by 100, or by 400).
pub open spec fn spec_is_gregorian_leap(y: int) -> bool {
    (y % 4 == 0 && y % 100 != 0) || y % 400 == 0
}

/// Jalali leap rule: within each 33-year cycle anchored at 1375, the leap
/// years sit at offsets 0, 4, 8, 12, 16, 20, 24 and 28 from the cycle start.
pub open spec fn spec_is_jalali_leap(y: int) -> bool {
    let r = (y - 1375) % 33;
    r == 0 || r == 4 || r == 8 || r == 12 || r == 16 || r == 20 || r == 24 || r == 28
}

/// Gregorian month length, with February resolved by the leap flag.
pub open spec fn spec_gregorian_month_length_of(leap: bool, m: int) -> int {
    if m == 2 {
        if leap { 29 } else { 28 }
    } else if m == 4 || m == 6 || m == 9 || m == 11 {
        30
    } else {
        31
    }
}

pub open spec fn spec_gregorian_month_length(y: int, m: int) -> int {
    spec_gregorian_month_length_of(spec_is_gregorian_leap(y), m)
}

/// Jalali month length: 31 for months 1-6, 30 for 7-11, and for month 12
/// 30 in a leap year, else 29.
pub open spec fn spec_jalali_month_length(y: int, m: int) -> int {
    if m <= 6 {
        31
    } else if m <= 11 {
        30
    } else if spec_is_jalali_leap(y) {
        30
    } else {
        29
    }
}

/// Days before the start of Gregorian month `m` in a non-leap year.
pub open spec fn spec_days_before_gregorian_month(m: int) -> int {
    if m <= 1 { 0 }
    else if m == 2 { 31 }
    else if m == 3 { 59 }
    else if m == 4 { 90 }
    else if m == 5 { 120 }
    else if m == 6 { 151 }
    else if m == 7 { 181 }
    else if m == 8 { 212 }
    else if m == 9 { 243 }
    else if m == 10 { 273 }
    else if m == 11 { 304 }
    else { 334 }
}

/// The day count from which the Jalali decomposition starts: an absolute day
/// number of the Gregorian date, shifted so that division by the 33-year
/// Jalali cycle (12053 days) yields the Jalali year directly.  The year used
/// for the leap corrections is moved up by one after February so that the
/// current year's own leap day is counted exactly when it has passed.
pub open spec fn spec_jalali_day_count(gy: int, gm: int, gd: int) -> int {
    let a = if gm > 2 { gy + 1 } else { gy };
    355666 + 365 * gy + (a + 3) / 4 - (a + 99) / 100 + (a + 399) / 400
        + gd + spec_days_before_gregorian_month(gm)
}

/// Decomposition of a Jalali-epoch day count into a Jalali (year, month, day)
/// triple: divide by the 33-year cycle (12053 days), then by the 4-year
/// sub-cycle (1461 days, leap year first), then by 365; split the remaining
/// day of year at day 186 (six 31-day months, then 30-day months).
pub open spec fn spec_decompose_jalali(e: int) -> (int, int, int) {
    let jy0 = -1595 + 33 * (e / 12053);
    let r1 = e % 12053;
    let jy1 = jy0 + 4 * (r1 / 1461);
    let r2 = r1 % 1461;
    let jy = if r2 > 365 { jy1 + (r2 - 1) / 365 } else { jy1 };
    let doy = if r2 > 365 { (r2 - 1) % 365 } else { r2 };
    if doy < 186 {
        (jy, 1 + doy / 31, 1 + doy % 31)
    } else {
        (jy, 7 + (doy - 186) / 30, 1 + (doy - 186) % 30)
    }
}

pub open spec fn spec_gregorian_to_jalali(gy: int, gm: int, gd: int) -> (int, int, int) {
    spec_decompose_jalali(spec_jalali_day_count(gy, gm, gd))
}

/// Day of the Jalali year (1-based): six 31-day months, then 30-day months.
pub open spec fn spec_jalali_day_of_year(jm: int, jd: int) -> int {
    if jm < 7 { (jm - 1) * 31 + jd } else { (jm - 7) * 30 + 186 + jd }
}

/// The day count from which the Gregorian decomposition starts: an absolute
/// day number of the Jalali date on the Gregorian 400-year cycle scale.
/// Within a 33-year cycle, `(n % 33 + 3) / 4` counts the leap years already
/// passed, and each full cycle contributes 8 leap days.
pub open spec fn spec_gregorian_day_count(jy: int, jm: int, jd: int) -> int {
    let n = jy + 1595;
    -355668 + 365 * n + (n / 33) * 8 + ((n % 33) + 3) / 4 + spec_jalali_day_of_year(jm, jd)
}

/// Walk a 0-based day of year through the Gregorian month lengths, yielding
/// the month and the 1-based day in it.  A remainder of 0 is the first day of
/// the month under consideration.
pub open spec fn spec_gregorian_month_walk(m: int, rem: int, leap: bool) -> (int, int)
    decreases 13 - m,
{
    if 1 <= m < 13 && rem >= spec_gregorian_month_length_of(leap, m) {
        spec_gregorian_month_walk(m + 1, rem - spec_gregorian_month_length_of(leap, m), leap)
    } else {
        (m, rem + 1)
    }
}

/// Decomposition of a Gregorian-epoch day count into a Gregorian
/// (year, month, day) triple: divide by the 400-year cycle (146097 days),
/// split off the century (the first century of a cycle has 36525 days, the
/// rest 36524, re-aligned by skipping the missing leap day), then divide by
/// the 4-year sub-cycle and by 365, and walk the month table.
pub open spec fn spec_decompose_gregorian(dc: int) -> (int, int, int) {
    let gy0 = 400 * (dc / 146097);
    let r0 = dc % 146097;
    let gy1 = if r0 > 36524 { gy0 + 100 * ((r0 - 1) / 36524) } else { gy0 };
    let r1 = if r0 > 36524 {
        let d = r0 - ((r0 - 1) / 36524) * 36524;
        if d >= 366 { d } else { d - 1 }
    } else {
        r0
    };
    let gy2 = gy1 + 4 * (r1 / 1461);
    let r2 = r1 % 1461;
    let gy = if r2 > 365 { gy2 + (r2 - 1) / 365 } else { gy2 };
    let doy = if r2 > 365 { (r2 - 1) % 365 } else { r2 };
    let md = spec_gregorian_month_walk(1, doy, spec_is_gregorian_leap(gy));
    (gy, md.0, md.1)
}

pub open spec fn spec_jalali_to_gregorian(jy: int, jm: int, jd: int) -> (int, int, int) {
    spec_decompose_gregorian(spec_gregorian_day_count(jy, jm, jd))
}

/// Highest year either conversion direction accepts; far beyond the range a
/// time zone library can represent, but small enough that every intermediate
/// day count stays comfortably inside the machine integers.
pub const MAX_ENGINE_YEAR: i32 = 270_000;

/// Lowest Jalali year the Gregorian-direction conversion accepts; the image
/// of Gregorian year 1 is Jalali year -621, so every value derived from a
/// real civil date stays above this line.
pub const MIN_ENGINE_JALALI_YEAR: i32 = -621;

/// Gregorian leap-year test.  The zero tests on the remainders are the same
/// for a year and for its negation, so the result matches the mathematical
/// rule for every input.
pub fn is_gregorian_leap(y: i32) -> (r: bool)
    ensures
        r == spec_is_gregorian_leap(y as int),
{
    let a: u64 = if y >= 0 { y as u64 } else { (-(y as i64)) as u64 };
    proof {
        if y < 0 {
            let yi = y as int;
            assert((a as int) % 4 == 0 <==> yi % 4 == 0) by {
                lemma_neg_mod_zero(yi, 4);
            };
            assert((a as int) % 100 == 0 <==> yi % 100 == 0) by {
                lemma_neg_mod_zero(yi, 100);
            };
            assert((a as int) % 400 == 0 <==> yi % 400 == 0) by {
                lemma_neg_mod_zero(yi, 400);
            };
        }
    }
    (a % 4 == 0 && a % 100 != 0) || a % 400 == 0
}

/// A number and its negation are divisible by the same positive moduli.
proof fn lemma_neg_mod_zero(x: int, d: int)
    requires
        d > 0,
    ensures
        (x % d == 0) <==> ((-x) % d == 0),
{
    vstd::arithmetic::div_mod::lemma_fundamental_div_mod(x, d);
    vstd::arithmetic::div_mod::lemma_fundamental_div_mod(-x, d);
    let q = x / d;
    let qq = (-x) / d;
    if x % d == 0 {
        assert(-x == (-q) * d + 0) by (nonlinear_arith)
            requires x == d * q + x % d && x % d == 0;
        vstd::arithmetic::div_mod::lemma_fundamental_div_mod_converse_mod(-x, d, -q, 0);
    }
    if (-x) % d == 0 {
        assert(x == (-qq) * d + 0) by (nonlinear_arith)
            requires -x == d * qq + (-x) % d && (-x) % d == 0;
        vstd::arithmetic::div_mod::lemma_fundamental_div_mod_converse_mod(x, d, -qq, 0);
    }
}

/// Jalali leap-year test, by the anchor-year algorithm: an offset from the
/// anchor year 1375 that is an exact multiple of 33 is always leap;
/// otherwise locate the start of the 33-year cycle the year falls in, by
/// whole cycles forward or backward, and test the offset from that start
/// against the leap offset table.  The result equals the canonical residue
/// test of `spec_is_jalali_leap` for every year.
pub fn is_jalali_leap(y: i32) -> (r: bool)
    ensures
        r == spec_is_jalali_leap(y as int),
{
    let d: i64 = y as i64 - 1375;
    let mag: u64 = if d >= 0 { d as u64 } else { (-d) as u64 };
    proof {
        if d < 0 {
            lemma_neg_mod_zero(d as int, 33);
        }
    }
    if mag % 33 == 0 {
        proof {
            let di = d as int;
            if d < 0 {
                vstd::arithmetic::div_mod::lemma_fundamental_div_mod(-di, 33);
                vstd::arithmetic::div_mod::lemma_fundamental_div_mod_converse_mod(
                    di, 33, -((-di) / 33), 0);
            }
        }
        return true;
    }
    let start: i64 = if d > 33 {
        1375 + ((d as u64 / 33) * 33) as i64
    } else if d > 0 {
        1375
    } else if d > -33 {
        1375 - 33
    } else {
        1375 - ((((-d) as u64) + 32) / 33 * 33) as i64
    };
    let off: i64 = y as i64 - start;
    proof {
        let di = d as int;
        if d > 33 {
            vstd::arithmetic::div_mod::lemma_fundamental_div_mod(di, 33);
            vstd::arithmetic::div_mod::lemma_mod_division_less_than_divisor(di, 33);
            assert(off as int == di % 33);
        } else if d > 0 {
            vstd::arithmetic::div_mod::lemma_fundamental_div_mod_converse(di, 33, 0, di);
            assert(off as int == di % 33);
        } else if d > -33 {
            vstd::arithmetic::div_mod::lemma_fundamental_div_mod_converse(di, 33, -1, di + 33);
            assert(off as int == di % 33);
        } else {
            let k = -di;
            let q = k / 33;
            let t = k % 33;
            vstd::arithmetic::div_mod::lemma_fundamental_div_mod(k, 33);
            vstd::arithmetic::div_mod::lemma_mod_division_less_than_divisor(k, 33);
            assert(t != 0);
            assert((k + 32) / 33 == q + 1) by {
                vstd::arithmetic::div_mod::lemma_fundamental_div_mod_converse(
                    k + 32, 33, q + 1, t - 1);
            };
            vstd::arithmetic::div_mod::lemma_fundamental_div_mod_converse(
                di, 33, -q - 1, 33 - t);
            assert(off as int == di % 33);
        }
        assert(1 <= off <= 32);
    }
    off == 0 || off == 4 || off == 8 || off == 12 || off == 16 || off == 20 || off == 24
        || off == 28 || off == 33
}

/// Gregorian month length for a given leap flag.
fn gregorian_month_length_of(leap: bool, m: u64) -> (r: u64)
    ensures
        r == spec_gregorian_month_length_of(leap, m as int),
{
    if m == 2 {
        if leap { 29 } else { 28 }
    } else if m == 4 || m == 6 || m == 9 || m == 11 {
        30
    } else {
        31
    }
}

/// Gregorian month length of a month of a given year.
pub fn gregorian_month_length(y: i32, m: i32) -> (r: i32)
    requires
        0 <= m,
    ensures
        r == spec_gregorian_month_length(y as int, m as int),
{
    gregorian_month_length_of(is_gregorian_leap(y), m as u64) as i32
}

/// Jalali month length of a month of a given year.
pub fn jalali_month_length(y: i32, m: i32) -> (r: i32)
    ensures
        r == spec_jalali_month_length(y as int, m as int),
{
    if m <= 6 {
        31
    } else if m <= 11 {
        30
    } else if is_jalali_leap(y) {
        30
    } else {
        29
    }
}

/// Days before the start of a Gregorian month in a non-leap year.
pub(crate) fn days_before_gregorian_month(m: i32) -> (r: u64)
    requires
        1 <= m <= 12,
    ensures
        r == spec_days_before_gregorian_month(m as int),
{
    match m {
        1 => 0,
        2 => 31,
        3 => 59,
        4 => 90,
        5 => 120,
        6 => 151,
        7 => 181,
        8 => 212,
        9 => 243,
        10 => 273,
        11 => 304,
        _ => 334,
    }
}

/// The components of a converted Jalali triple are in range: the month is 1
/// through 12, the day 1 through 31, and the year stays within the engine's
/// bounds.
pub proof fn lemma_gregorian_to_jalali_in_range(gy: int, gm: int, gd: int)
    requires
        1 <= gy <= MAX_ENGINE_YEAR as int,
        1 <= gm <= 12,
        1 <= gd <= 31,
    ensures
        ({
            let j = spec_gregorian_to_jalali(gy, gm, gd);
            &&& MIN_ENGINE_JALALI_YEAR as int <= j.0 <= MAX_ENGINE_YEAR as int
            &&& 1 <= j.1 <= 12
            &&& 1 <= j.2 <= 31
        }),
{
    let e = spec_jalali_day_count(gy, gm, gd);
    let a = if gm > 2 { gy + 1 } else { gy };
    assert(0 <= (a + 3) / 4 <= (270_001 + 3) / 4) by {
        vstd::arithmetic::div_mod::lemma_div_is_ordered(a + 3, 270_004, 4);
        vstd::arithmetic::div_mod::lemma_div_pos_is_pos(a + 3, 4);
    };
    assert(0 <= (a + 99) / 100 <= (270_001 + 99) / 100) by {
        vstd::arithmetic::div_mod::lemma_div_is_ordered(a + 99, 270_100, 100);
        vstd::arithmetic::div_mod::lemma_div_pos_is_pos(a + 99, 100);
    };
    assert(0 <= (a + 399) / 400 <= (270_001 + 399) / 400) by {
        vstd::arithmetic::div_mod::lemma_div_is_ordered(a + 399, 270_400, 400);
        vstd::arithmetic::div_mod::lemma_div_pos_is_pos(a + 399, 400);
    };
    assert(355666 <= e <= 99_000_000);
    let q1 = e / 12053;
    let r1 = e % 12053;
    assert(0 <= q1 <= 8213) by {
        vstd::arithmetic::div_mod::lemma_div_is_ordered(e, 99_000_000, 12053);
        vstd::arithmetic::div_mod::lemma_div_pos_is_pos(e, 12053);
        assert(99_000_000int / 12053 == 8213) by {
            vstd::arithmetic::div_mod::lemma_fundamental_div_mod_converse_div(
                99_000_000, 12053, 8213, 8711);
        };
    };
    assert(0 <= r1 < 12053) by {
        vstd::arithmetic::div_mod::lemma_mod_division_less_than_divisor(e, 12053);
    };
    let q2 = r1 / 1461;
    let r2 = r1 % 1461;
    assert(0 <= q2 <= 8) by {
        vstd::arithmetic::div_mod::lemma_div_is_ordered(r1, 12052, 1461);
        vstd::arithmetic::div_mod::lemma_div_pos_is_pos(r1, 1461);
        assert(12052int / 1461 == 8) by {
            vstd::arithmetic::div_mod::lemma_fundamental_div_mod_converse_div(
                12052, 1461, 8, 364);
        };
    };
    assert(0 <= r2 < 1461) by {
        vstd::arithmetic::div_mod::lemma_mod_division_less_than_divisor(r1, 1461);
    };
    let extra = if r2 > 365 { (r2 - 1) / 365 } else { 0 };
    let doy = if r2 > 365 { (r2 - 1) % 365 } else { r2 };
    assert(0 <= extra <= 3) by {
        if r2 > 365 {
            vstd::arithmetic::div_mod::lemma_div_is_ordered(r2 - 1, 1459, 365);
            vstd::arithmetic::div_mod::lemma_div_pos_is_pos(r2 - 1, 365);
            assert(1459int / 365 == 3) by {
                vstd::arithmetic::div_mod::lemma_fundamental_div_mod_converse_div(
                    1459, 365, 3, 364);
            };
        }
    };
    assert(0 <= doy <= 365) by {
        if r2 > 365 {
            vstd::arithmetic::div_mod::lemma_mod_division_less_than_divisor(r2 - 1, 365);
        }
    };
    let jy = -1595 + 33 * q1 + 4 * q2 + extra;
    assert(MIN_ENGINE_JALALI_YEAR as int <= jy <= MAX_ENGINE_YEAR as int);
    if doy < 186 {
        assert(0 <= doy / 31 <= 5) by {
            vstd::arithmetic::div_mod::lemma_div_is_ordered(doy, 185, 31);
            vstd::arithmetic::div_mod::lemma_div_pos_is_pos(doy, 31);
        };
        assert(0 <= doy % 31 < 31) by {
            vstd::arithmetic::div_mod::lemma_mod_division_less_than_divisor(doy, 31);
        };
    } else {
        assert(0 <= (doy - 186) / 30 <= 5) by {
            vstd::arithmetic::div_mod::lemma_div_is_ordered(doy - 186, 179, 30);
            vstd::arithmetic::div_mod::lemma_div_pos_is_pos(doy - 186, 30);
        };
        assert(0 <= (doy - 186) % 30 < 30) by {
            vstd::arithmetic::div_mod::lemma_mod_division_less_than_divisor(doy - 186, 30);
        };
    }
}

/// Convert a Gregorian calendar date to the Jalali calendar.
pub fn gregorian_to_jalali(gy: i32, gm: i32, gd: i32) -> (r: (i32, i32, i32))
    requires
        1 <= gy <= MAX_ENGINE_YEAR,
        1 <= gm <= 12,
        1 <= gd <= spec_gregorian_month_length(gy as int, gm as int),
    ensures
        (r.0 as int, r.1 as int, r.2 as int) == spec_gregorian_to_jalali(
            gy as int, gm as int, gd as int),
{
    let gy_u = gy as u64;
    let a: u64 = if gm > 2 { gy_u + 1 } else { gy_u };
    let e: u64 = 355666 + 365 * gy_u + (a + 3) / 4 - (a + 99) / 100 + (a + 399) / 400
        + gd as u64 + days_before_gregorian_month(gm);
    assert(e as int == spec_jalali_day_count(gy as int, gm as int, gd as int));
    let q1 = e / 12053;
    let r1 = e % 12053;
    let mut jy: i64 = -1595 + 33 * (q1 as i64);
    let q2 = r1 / 1461;
    let r2 = r1 % 1461;
    jy = jy + 4 * (q2 as i64);
    let doy: u64 = if r2 > 365 {
        jy = jy + ((r2 - 1) / 365) as i64;
        (r2 - 1) % 365
    } else {
        r2
    };
    let (jm_, jd_): (u64, u64) = if doy < 186 {
        (1 + doy / 31, 1 + doy % 31)
    } else {
        (7 + (doy - 186) / 30, 1 + (doy - 186) % 30)
    };
    (jy as i32, jm_ as i32, jd_ as i32)
}

/// Convert a Jalali calendar date to the Gregorian calendar.
#[verifier::rlimit(60)]
pub fn jalali_to_gregorian(jy: i32, jm: i32, jd: i32) -> (r: (i32, i32, i32))
    requires
        MIN_ENGINE_JALALI_YEAR <= jy <= MAX_ENGINE_YEAR,
        1 <= jm <= 12,
        1 <= jd <= 31,
    ensures
        (r.0 as int, r.1 as int, r.2 as int) == spec_jalali_to_gregorian(
            jy as int, jm as int, jd as int),
{
    let n: u64 = (jy as i64 + 1595) as u64;
    let jdoy: u64 = if jm < 7 {
        (jm as u64 - 1) * 31 + jd as u64
    } else {
        (jm as u64 - 7) * 30 + 186 + jd as u64
    };
    assert(jdoy as int == spec_jalali_day_of_year(jm as int, jd as int));
    let dc_i: i64 = -355668 + 365 * (n as i64) + ((n / 33) as i64) * 8
        + (((n % 33) + 3) / 4) as i64 + jdoy as i64;
    assert(dc_i as int == spec_gregorian_day_count(jy as int, jm as int, jd as int));
    proof {
        vstd::arithmetic::div_mod::lemma_div_is_ordered(974, n as int, 33);
        assert(974 == 33 * 29 + 17);
        vstd::arithmetic::div_mod::lemma_fundamental_div_mod_converse_div(974, 33, 29, 17);
        assert(dc_i >= 0);
    }
    let dc: u64 = dc_i as u64;
    let q0 = dc / 146097;
    let r0 = dc % 146097;
    let mut gy: i64 = 400 * (q0 as i64);
    let r1: u64;
    if r0 > 36524 {
        let c = (r0 - 1) / 36524;
        proof {
            vstd::arithmetic::div_mod::lemma_fundamental_div_mod(r0 as int - 1, 36524);
        }
        gy = gy + 100 * (c as i64);
        let d = r0 - c * 36524;
        r1 = if d >= 366 { d } else { d - 1 };
    } else {
        r1 = r0;
    }
    let q2 = r1 / 1461;
    let r2 = r1 % 1461;
    gy = gy + 4 * (q2 as i64);
    let doy: u64 = if r2 > 365 {
        gy = gy + ((r2 - 1) / 365) as i64;
        (r2 - 1) % 365
    } else {
        r2
    };
    let leap_u = gy as u64;
    let leap = (leap_u % 4 == 0 && leap_u % 100 != 0) || leap_u % 400 == 0;
    assert(leap == spec_is_gregorian_leap(gy as int));
    proof {
        let dci = dc as int;
        let sr0 = dci % 146097;
        assert(r0 as int == sr0);
        let sgy1 = if sr0 > 36524 { 400 * (dci / 146097) + 100 * ((sr0 - 1) / 36524) }
            else { 400 * (dci / 146097) };
        let sr1 = if sr0 > 36524 {
            let d = sr0 - ((sr0 - 1) / 36524) * 36524;
            if d >= 366 { d } else { d - 1 }
        } else { sr0 };
        assert(r1 as int == sr1);
        let sgy2 = sgy1 + 4 * (sr1 / 1461);
        let sr2 = sr1 % 1461;
        let sgy = if sr2 > 365 { sgy2 + (sr2 - 1) / 365 } else { sgy2 };
        let sdoy = if sr2 > 365 { (sr2 - 1) % 365 } else { sr2 };
        assert(gy as int == sgy);
        assert(doy as int == sdoy);
    }
    let mut m: u64 = 1;
    let mut rem: u64 = doy;
    while m < 13 && rem >= gregorian_month_length_of(leap, m)
        invariant
            1 <= m <= 13,
            rem <= doy,
            doy <= 1460,
            spec_gregorian_month_walk(m as int, rem as int, leap)
                == spec_gregorian_month_walk(1, doy as int, leap),
        decreases 13 - m,
    {
        rem = rem - gregorian_month_length_of(leap, m);
        m = m + 1;
    }
    (gy as i32, m as i32, (rem + 1) as i32)
}

} // verus!
