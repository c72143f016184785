//! The day-number model of the conversion engine, and the proofs that each
//! decomposition inverts the matching day-count formula.  From these follow
//! the round-trip laws: converting a date to the other calendar and back
//! yields the original date, in both directions.

use vstd::prelude::*;
use vstd::arithmetic::div_mod::{
    lemma_div_is_ordered, lemma_div_pos_is_pos, lemma_fundamental_div_mod,
    lemma_fundamental_div_mod_converse, lemma_mod_division_less_than_divisor,
};
use crate::engine::{
    spec_days_before_gregorian_month, spec_decompose_gregorian, spec_decompose_jalali,
    spec_gregorian_day_count, spec_gregorian_month_length, spec_gregorian_month_length_of,
    spec_gregorian_month_walk, spec_gregorian_to_jalali, spec_is_gregorian_leap,
    spec_is_jalali_leap, spec_jalali_day_count, spec_jalali_day_of_year,
    spec_jalali_month_length, spec_jalali_to_gregorian, MIN_ENGINE_JALALI_YEAR,
};

verus! {

/// Days before year `y` of a leap-first block structure: 365 per year plus
/// one leap day for each started 4-year block.
pub open spec fn block_offset(y: int) -> int {
    365 * y + (y + 3) / 4
}

/// The year index the block decomposition assigns to a day count.
pub open spec fn block_year(x: int) -> int {
    let r2 = x % 1461;
    4 * (x / 1461) + if r2 > 365 { (r2 - 1) / 365 } else { 0 }
}

/// The day-of-year the block decomposition assigns to a day count.
pub open spec fn block_doy(x: int) -> int {
    let r2 = x % 1461;
    if r2 > 365 { (r2 - 1) % 365 } else { r2 }
}

/// 0-based day of the Jalali year.
pub open spec fn jalali_doy0(jm: int, jd: int) -> int {
    spec_jalali_day_of_year(jm, jd) - 1
}

/// Absolute day index of a Jalali date on the engine's Jalali scale.
pub open spec fn jalali_day_index(jy: int, jm: int, jd: int) -> int {
    let n = jy + 1595;
    365 * n + (n / 33) * 8 + ((n % 33) + 3) / 4 + jalali_doy0(jm, jd)
}

/// Leap years of the proleptic Gregorian calendar before year `y`
/// (year 0 included).
pub open spec fn leaps_before(y: int) -> int {
    (y + 3) / 4 - (y + 99) / 100 + (y + 399) / 400
}

/// Days before Gregorian month `m` of a year with the given leap flag; for
/// `m` of 13, the length of the whole year.
pub open spec fn spec_days_upto(leap: bool, m: int) -> int {
    if m <= 12 {
        spec_days_before_gregorian_month(m) + if m > 2 && leap { 1int } else { 0int }
    } else {
        365 + if leap { 1int } else { 0int }
    }
}

/// 0-based day of the Gregorian year.
pub open spec fn gregorian_doy0(gy: int, gm: int, gd: int) -> int {
    spec_days_upto(spec_is_gregorian_leap(gy), gm) + gd - 1
}

/// Absolute day index of a Gregorian date on the engine's Gregorian scale.
pub open spec fn gregorian_day_index(gy: int, gm: int, gd: int) -> int {
    365 * gy + leaps_before(gy) + gregorian_doy0(gy, gm, gd)
}

/// Dividing `q*d + t` by positive `d` splits off `q`.
proof fn lemma_div_shift(q: int, d: int, t: int)
    requires
        d > 0,
        t >= 0,
    ensures
        (q * d + t) / d == q + t / d,
        (q * d + t) % d == t % d,
{
    lemma_fundamental_div_mod(t, d);
    lemma_mod_division_less_than_divisor(t, d);
    lemma_div_pos_is_pos(t, d);
    assert((q + t / d) * d + t % d == q * d + t) by (nonlinear_arith)
        requires t == d * (t / d) + t % d;
    lemma_fundamental_div_mod_converse(q * d + t, d, q + t / d, t % d);
}

/// The block decomposition, read forward: any nonnegative day count lands on
/// a year at whose offset it sits, with a day-of-year that respects the
/// year's length.
proof fn lemma_block_forward(x: int)
    requires
        0 <= x,
    ensures
        0 <= block_year(x),
        0 <= block_doy(x),
        block_doy(x) <= if block_year(x) % 4 == 0 { 365int } else { 364int },
        block_offset(block_year(x)) + block_doy(x) == x,
        365 * block_year(x) <= x,
{
    let q = x / 1461;
    let r2 = x % 1461;
    lemma_fundamental_div_mod(x, 1461);
    lemma_mod_division_less_than_divisor(x, 1461);
    lemma_div_pos_is_pos(x, 1461);
    if r2 > 365 {
        let e = (r2 - 1) / 365;
        let dy = (r2 - 1) % 365;
        lemma_fundamental_div_mod(r2 - 1, 365);
        lemma_mod_division_less_than_divisor(r2 - 1, 365);
        lemma_div_is_ordered(365, r2 - 1, 365);
        lemma_div_is_ordered(r2 - 1, 1459, 365);
        assert(365int / 365 == 1) by {
            lemma_fundamental_div_mod_converse(365, 365, 1, 0);
        };
        assert(1459int / 365 == 3) by {
            lemma_fundamental_div_mod_converse(1459, 365, 3, 364);
        };
        assert(1 <= e <= 3);
        let y = 4 * q + e;
        assert((y + 3) / 4 == q + 1 && y % 4 == e) by {
            lemma_div_shift(q, 4, e + 3);
            lemma_fundamental_div_mod_converse(e + 3, 4, 1, e - 1);
            lemma_div_shift(q, 4, e);
            lemma_fundamental_div_mod_converse(e, 4, 0, e);
        };
        assert(block_offset(y) == 1461 * q + 365 * e + 1);
        assert(block_year(x) == y && block_doy(x) == dy);
        assert(block_offset(y) + dy == x);
    } else {
        let y = 4 * q;
        assert((y + 3) / 4 == q && y % 4 == 0) by {
            lemma_div_shift(q, 4, 3);
            assert(3int / 4 == 0 && 3int % 4 == 3) by {
                lemma_fundamental_div_mod_converse(3, 4, 0, 3);
            };
            lemma_div_shift(q, 4, 0);
            assert(0int / 4 == 0 && 0int % 4 == 0) by {
                lemma_fundamental_div_mod_converse(0, 4, 0, 0);
            };
        };
        assert(block_offset(y) == 1461 * q);
        assert(block_year(x) == y && block_doy(x) == r2);
    }
}

/// The block decomposition, read backward: the day count built from a year
/// and an in-range day-of-year decomposes to exactly that pair.
proof fn lemma_block_reconstruct(y: int, dy: int)
    requires
        0 <= y,
        0 <= dy,
        dy <= if y % 4 == 0 { 365int } else { 364int },
    ensures
        block_year(block_offset(y) + dy) == y,
        block_doy(block_offset(y) + dy) == dy,
{
    let u = y / 4;
    let v = y % 4;
    lemma_fundamental_div_mod(y, 4);
    lemma_mod_division_less_than_divisor(y, 4);
    lemma_div_pos_is_pos(y, 4);
    assert((y + 3) / 4 == u + if v > 0 { 1int } else { 0int }) by {
        lemma_div_shift(u, 4, v + 3);
        if v == 0 {
            lemma_fundamental_div_mod_converse(3, 4, 0, 3);
        } else {
            lemma_fundamental_div_mod_converse(v + 3, 4, 1, v - 1);
        }
    };
    let w = 365 * v + (if v > 0 { 1int } else { 0int }) + dy;
    let x = block_offset(y) + dy;
    assert(x == 1461 * u + w);
    assert(0 <= w < 1461);
    assert(x / 1461 == u && x % 1461 == w) by {
        lemma_fundamental_div_mod_converse(x, 1461, u, w);
    };
    if v == 0 {
        assert(w == dy && w <= 365);
        assert(block_year(x) == 4 * u && block_doy(x) == dy);
    } else {
        assert(w == 365 * v + 1 + dy && w > 365);
        assert((w - 1) / 365 == v && (w - 1) % 365 == dy) by {
            lemma_fundamental_div_mod_converse(w - 1, 365, v, dy);
        };
        assert(block_year(x) == 4 * u + v && block_doy(x) == dy);
    }
}

/// Offsets grow with the year.
proof fn lemma_block_offset_mono(y1: int, y2: int)
    requires
        y1 <= y2,
    ensures
        block_offset(y1) <= block_offset(y2),
{
    lemma_div_is_ordered(y1 + 3, y2 + 3, 4);
}

/// The Jalali year offset splits into whole 33-year cycles of 12053 days
/// plus a block offset within the cycle.
proof fn lemma_jalali_cycle_split(n: int)
    requires
        0 <= n,
    ensures
        365 * n + (n / 33) * 8 + ((n % 33) + 3) / 4
            == 12053 * (n / 33) + block_offset(n % 33),
{
    lemma_fundamental_div_mod(n, 33);
}

/// The Jalali decomposition, read forward: a nonnegative day count yields a
/// valid Jalali date (day 30 of the last month only in a leap year) whose
/// day index is the day count itself.
pub proof fn lemma_decompose_jalali_forward(e: int)
    requires
        0 <= e,
    ensures
        ({
            let (jy, jm, jd) = spec_decompose_jalali(e);
            &&& 1 <= jm <= 12
            &&& 1 <= jd <= spec_jalali_month_length(jy, jm)
            &&& jalali_day_index(jy, jm, jd) == e
            &&& -1595 <= jy
            &&& 365 * (jy + 1595) <= e
        }),
{
    let a = e / 12053;
    let r1 = e % 12053;
    lemma_fundamental_div_mod(e, 12053);
    lemma_mod_division_less_than_divisor(e, 12053);
    lemma_div_pos_is_pos(e, 12053);
    lemma_block_forward(r1);
    let yb = block_year(r1);
    let dy = block_doy(r1);
    assert(yb <= 32) by {
        if yb >= 33 {
            lemma_block_offset_mono(33, yb);
            assert(block_offset(33) == 12045 + 9) by {
                lemma_fundamental_div_mod_converse(36, 4, 9, 0);
            };
        }
    };
    let jy = -1595 + 33 * a + yb;
    let n = jy + 1595;
    assert(n / 33 == a && n % 33 == yb) by {
        lemma_fundamental_div_mod_converse(n, 33, a, yb);
    };
    lemma_jalali_cycle_split(n);
    // the leap rule agrees with the cycle position
    assert((jy - 1375) % 33 == yb) by {
        lemma_fundamental_div_mod_converse(jy - 1375, 33, a - 90, yb);
    };
    // the decomposition's year and day-of-year are the block's
    assert(spec_decompose_jalali(e).0 == jy);
    if dy == 365 {
        assert(yb % 4 == 0);
        assert(yb <= 28) by {
            if yb == 32 {
                assert(block_offset(32) == 365 * 32 + 8) by {
                    lemma_fundamental_div_mod_converse(35, 4, 8, 3);
                };
            }
        };
        assert(spec_is_jalali_leap(jy));
    }
    if dy < 186 {
        let jm = 1 + dy / 31;
        let jd = 1 + dy % 31;
        lemma_fundamental_div_mod(dy, 31);
        lemma_mod_division_less_than_divisor(dy, 31);
        lemma_div_pos_is_pos(dy, 31);
        lemma_div_is_ordered(dy, 185, 31);
        assert(185int / 31 == 5) by {
            lemma_fundamental_div_mod_converse(185, 31, 5, 30);
        };
        assert(1 <= jm <= 6 && 1 <= jd <= 31);
        assert(jalali_doy0(jm, jd) == 31 * (dy / 31) + dy % 31);
        assert(jalali_day_index(jy, jm, jd) == e);
    } else {
        let t = dy - 186;
        let jm = 7 + t / 30;
        let jd = 1 + t % 30;
        lemma_fundamental_div_mod(t, 30);
        lemma_mod_division_less_than_divisor(t, 30);
        lemma_div_pos_is_pos(t, 30);
        lemma_div_is_ordered(t, 179, 30);
        assert(179int / 30 == 5) by {
            lemma_fundamental_div_mod_converse(179, 30, 5, 29);
        };
        assert(7 <= jm <= 12 && 1 <= jd <= 30);
        assert(jalali_doy0(jm, jd) == 30 * (t / 30) + t % 30 + 186);
        assert(jalali_day_index(jy, jm, jd) == e);
        if jd == 30 && jm == 12 {
            assert(t == 179 && dy == 365);
            assert(spec_is_jalali_leap(jy));
        }
        assert(jd <= spec_jalali_month_length(jy, jm));
    }
}

/// The Jalali decomposition, read backward: the day index of a valid Jalali
/// date decomposes to exactly that date.
pub proof fn lemma_decompose_jalali_reconstruct(jy: int, jm: int, jd: int)
    requires
        jy >= -1595,
        1 <= jm <= 12,
        1 <= jd <= spec_jalali_month_length(jy, jm),
    ensures
        spec_decompose_jalali(jalali_day_index(jy, jm, jd)) == (jy, jm, jd),
        jalali_day_index(jy, jm, jd) >= 0,
{
    let n = jy + 1595;
    let a = n / 33;
    let b = n % 33;
    lemma_fundamental_div_mod(n, 33);
    lemma_mod_division_less_than_divisor(n, 33);
    lemma_div_pos_is_pos(n, 33);
    assert((jy - 1375) % 33 == b) by {
        lemma_fundamental_div_mod_converse(jy - 1375, 33, a - 90, b);
    };
    lemma_jalali_cycle_split(n);
    let dy = jalali_doy0(jm, jd);
    if jm < 7 {
        assert(dy == 31 * (jm - 1) + (jd - 1));
        assert(dy / 31 == jm - 1 && dy % 31 == jd - 1) by {
            lemma_fundamental_div_mod_converse(dy, 31, jm - 1, jd - 1);
        };
        assert(0 <= dy <= 185);
    } else {
        let t = 30 * (jm - 7) + (jd - 1);
        assert(jd <= 30);
        assert(t / 30 == jm - 7 && t % 30 == jd - 1) by {
            lemma_fundamental_div_mod_converse(t, 30, jm - 7, jd - 1);
        };
        assert(dy == t + 186);
        assert(186 <= dy <= 365);
        if dy == 365 {
            assert(jm == 12 && jd == 30);
            assert(spec_is_jalali_leap(jy));
        }
    }
    assert(dy <= if b % 4 == 0 { 365int } else { 364int }) by {
        if dy == 365 {
            assert(spec_is_jalali_leap(jy));
            assert(b == 0 || b == 4 || b == 8 || b == 12 || b == 16 || b == 20 || b == 24
                || b == 28);
        }
    };
    let x = block_offset(b) + dy;
    assert(x <= 12052) by {
        lemma_div_is_ordered(b + 3, 35, 4);
        assert(35int / 4 == 8) by {
            lemma_fundamental_div_mod_converse(35, 4, 8, 3);
        };
        lemma_div_pos_is_pos(b + 3, 4);
        if dy == 365 {
            assert(b % 4 == 0 && spec_is_jalali_leap(jy));
            assert(b <= 28);
            lemma_div_is_ordered(b + 3, 31, 4);
            assert(31int / 4 == 7) by {
                lemma_fundamental_div_mod_converse(31, 4, 7, 3);
            };
        }
    };
    assert(x >= 0) by {
        lemma_div_pos_is_pos(b + 3, 4);
    };
    let e = jalali_day_index(jy, jm, jd);
    assert(e == 12053 * a + x);
    assert(e / 12053 == a && e % 12053 == x) by {
        lemma_fundamental_div_mod_converse(e, 12053, a, x);
    };
    lemma_block_reconstruct(b, dy);
    assert(spec_decompose_jalali(e).0 == jy);
    if jm < 7 {
        assert(dy < 186);
        assert(spec_decompose_jalali(e).1 == 1 + dy / 31);
        assert(spec_decompose_jalali(e) == (jy, jm, jd));
    } else {
        assert(dy >= 186);
        assert(spec_decompose_jalali(e) == (jy, jm, jd));
    }
}

/// Stepping to the next month adds the month's length to the cumulative
/// table.
proof fn lemma_days_upto_step(leap: bool, k: int)
    requires
        1 <= k <= 12,
    ensures
        spec_days_upto(leap, k + 1)
            == spec_days_upto(leap, k) + spec_gregorian_month_length_of(leap, k),
{
}

/// The month walk, read backward: starting anywhere at or before the target
/// month, the cumulative remainder walks to exactly the target month and day.
proof fn lemma_walk_reconstruct_from(leap: bool, k: int, m: int, d: int)
    requires
        1 <= k <= m <= 12,
        1 <= d <= spec_gregorian_month_length_of(leap, m),
    ensures
        spec_gregorian_month_walk(
            k, spec_days_upto(leap, m) - spec_days_upto(leap, k) + d - 1, leap) == (m, d),
    decreases m - k,
{
    let rem = spec_days_upto(leap, m) - spec_days_upto(leap, k) + d - 1;
    if k == m {
        assert(rem == d - 1);
        assert(rem < spec_gregorian_month_length_of(leap, k));
    } else {
        lemma_days_upto_step(leap, k);
        assert(spec_days_upto(leap, k + 1) <= spec_days_upto(leap, m));
        assert(rem >= spec_gregorian_month_length_of(leap, k));
        lemma_walk_reconstruct_from(leap, k + 1, m, d);
    }
}

/// The month walk, read forward: an in-range remainder lands on a month and
/// an in-range day whose cumulative position is the remainder.
proof fn lemma_walk_forward_from(leap: bool, k: int, rem: int)
    requires
        1 <= k <= 12,
        0 <= rem,
        spec_days_upto(leap, k) + rem < spec_days_upto(leap, 13),
    ensures
        ({
            let (m, d) = spec_gregorian_month_walk(k, rem, leap);
            &&& k <= m <= 12
            &&& 1 <= d <= spec_gregorian_month_length_of(leap, m)
            &&& spec_days_upto(leap, m) + d - 1 == spec_days_upto(leap, k) + rem
        }),
    decreases 12 - k,
{
    if rem < spec_gregorian_month_length_of(leap, k) {
    } else {
        lemma_days_upto_step(leap, k);
        assert(k < 12);
        lemma_walk_forward_from(leap, k + 1, rem - spec_gregorian_month_length_of(leap, k));
    }
}

/// The Gregorian year offset splits under the 400-year cycle decomposition.
proof fn lemma_gregorian_year_split(qq: int, c: int, z: int)
    requires
        0 <= qq,
        0 <= c <= 3,
        0 <= z <= 99,
    ensures
        ({
            let y = 400 * qq + 100 * c + z;
            365 * y + leaps_before(y)
                == 146097 * qq + 36524 * c + block_offset(z)
                    + (if 100 * c + z >= 1 { 1int } else { 0int })
                    - (if z >= 1 { 1int } else { 0int })
        }),
{
    let y = 400 * qq + 100 * c + z;
    assert((y + 3) / 4 == 100 * qq + 25 * c + (z + 3) / 4) by {
        lemma_div_shift(100 * qq + 25 * c, 4, z + 3);
    };
    assert((y + 99) / 100 == 4 * qq + c + (z + 99) / 100) by {
        lemma_div_shift(4 * qq + c, 100, z + 99);
    };
    assert((z + 99) / 100 == if z >= 1 { 1int } else { 0int }) by {
        if z == 0 {
            lemma_fundamental_div_mod_converse(99, 100, 0, 99);
        } else {
            lemma_fundamental_div_mod_converse(z + 99, 100, 1, z - 1);
        }
    };
    assert((y + 399) / 400 == qq + (100 * c + z + 399) / 400) by {
        lemma_div_shift(qq, 400, 100 * c + z + 399);
    };
    assert((100 * c + z + 399) / 400 == if 100 * c + z >= 1 { 1int } else { 0int }) by {
        if 100 * c + z == 0 {
            lemma_fundamental_div_mod_converse(399, 400, 0, 399);
        } else {
            lemma_fundamental_div_mod_converse(100 * c + z + 399, 400, 1, 100 * c + z - 1);
        }
    };
}

/// How the Gregorian leap rule reads on the cycle coordinates.
proof fn lemma_gregorian_leap_split(qq: int, c: int, z: int)
    requires
        0 <= qq,
        0 <= c <= 3,
        0 <= z <= 99,
    ensures
        ({
            let y = 400 * qq + 100 * c + z;
            spec_is_gregorian_leap(y) <==> ((z % 4 == 0 && z >= 1) || 100 * c + z == 0)
        }),
{
    let y = 400 * qq + 100 * c + z;
    assert(y % 4 == z % 4) by {
        lemma_fundamental_div_mod(z, 4);
        lemma_mod_division_less_than_divisor(z, 4);
        lemma_fundamental_div_mod_converse(y, 4, 100 * qq + 25 * c + z / 4, z % 4);
    };
    assert(y % 100 == z) by {
        lemma_fundamental_div_mod_converse(y, 100, 4 * qq + c, z);
    };
    assert(y % 400 == 100 * c + z) by {
        lemma_fundamental_div_mod_converse(y, 400, qq, 100 * c + z);
    };
    if z == 0 {
        assert(z % 4 == 0) by {
            lemma_fundamental_div_mod_converse(0, 4, 0, 0);
        };
    }
}

/// The Gregorian decomposition, read forward: a nonnegative day count yields
/// a real Gregorian date whose day index is the day count itself.
#[verifier::rlimit(100)]
pub proof fn lemma_decompose_gregorian_forward(dc: int)
    requires
        0 <= dc,
    ensures
        ({
            let (gy, gm, gd) = spec_decompose_gregorian(dc);
            &&& 0 <= gy
            &&& 1 <= gm <= 12
            &&& 1 <= gd <= spec_gregorian_month_length(gy, gm)
            &&& gregorian_day_index(gy, gm, gd) == dc
            &&& 365 * gy <= dc + 366
        }),
{
    let qq = dc / 146097;
    let r0 = dc % 146097;
    lemma_fundamental_div_mod(dc, 146097);
    lemma_mod_division_less_than_divisor(dc, 146097);
    lemma_div_pos_is_pos(dc, 146097);
    let cc: int;
    let x: int;
    if r0 > 36524 {
        cc = (r0 - 1) / 36524;
        lemma_fundamental_div_mod(r0 - 1, 36524);
        lemma_mod_division_less_than_divisor(r0 - 1, 36524);
        lemma_div_is_ordered(36524, r0 - 1, 36524);
        lemma_div_is_ordered(r0 - 1, 146095, 36524);
        assert(36524int / 36524 == 1) by {
            lemma_fundamental_div_mod_converse(36524, 36524, 1, 0);
        };
        assert(146095int / 36524 == 3) by {
            lemma_fundamental_div_mod_converse(146095, 36524, 3, 36523);
        };
        assert(1 <= cc <= 3);
        let d = r0 - cc * 36524;
        assert(1 <= d <= 36524);
        x = if d >= 366 { d } else { d - 1 };
    } else {
        cc = 0;
        x = r0;
    }
    assert(0 <= x <= 36524);
    lemma_block_forward(x);
    let z = block_year(x);
    let dy = block_doy(x);
    assert(z <= 99) by {
        if z >= 100 {
            lemma_block_offset_mono(100, z);
            assert(block_offset(100) == 36500 + 25) by {
                lemma_fundamental_div_mod_converse(103, 4, 25, 3);
            };
        }
    };
    let gy = 400 * qq + 100 * cc + z;
    assert(spec_decompose_gregorian(dc).0 == gy);
    lemma_gregorian_leap_split(qq, cc, z);
    let leap = spec_is_gregorian_leap(gy);
    // the day of year respects the year's length
    assert(dy <= if leap { 365int } else { 364int }) by {
        if dy == 365 {
            assert(z % 4 == 0);
            if cc >= 1 {
                // within a later century the phantom day is skipped, so a
                // 366th day cannot appear in its first year
                assert(z >= 1) by {
                    if z == 0 {
                        assert(x == dy);
                    }
                };
            }
        }
    };
    lemma_gregorian_year_split(qq, cc, z);
    lemma_walk_forward_from(leap, 1, dy);
    let (gm, gd) = spec_gregorian_month_walk(1, dy, leap);
    assert(spec_days_upto(leap, gm) + gd - 1 == dy);
    assert(gregorian_day_index(gy, gm, gd)
        == 146097 * qq + 36524 * cc + block_offset(z)
            + (if 100 * cc + z >= 1 { 1int } else { 0int })
            - (if z >= 1 { 1int } else { 0int }) + dy);
    if cc == 0 {
        assert(x == r0);
        assert(gregorian_day_index(gy, gm, gd) == dc);
    } else {
        let d = r0 - cc * 36524;
        if z >= 1 {
            assert(x >= 366) by {
                lemma_block_offset_mono(1, z);
                assert(block_offset(1) == 366) by {
                    lemma_fundamental_div_mod_converse(4, 4, 1, 0);
                };
            };
            assert(x == d);
            assert(gregorian_day_index(gy, gm, gd) == dc);
        } else {
            assert(block_offset(0) == 0) by {
                lemma_fundamental_div_mod_converse(3, 4, 0, 3);
            };
            assert(x == dy && dy <= 365);
            assert(x == d - 1);
            assert(gregorian_day_index(gy, gm, gd) == dc);
        }
    }
    assert(365 * gy <= dc + 366);
}

/// The Gregorian decomposition, read backward: the day index of a real
/// Gregorian date decomposes to exactly that date.
#[verifier::rlimit(100)]
pub proof fn lemma_decompose_gregorian_reconstruct(gy: int, gm: int, gd: int)
    requires
        0 <= gy,
        1 <= gm <= 12,
        1 <= gd <= spec_gregorian_month_length(gy, gm),
    ensures
        spec_decompose_gregorian(gregorian_day_index(gy, gm, gd)) == (gy, gm, gd),
        gregorian_day_index(gy, gm, gd) >= 0,
{
    let qq = gy / 400;
    let w = gy % 400;
    lemma_fundamental_div_mod(gy, 400);
    lemma_mod_division_less_than_divisor(gy, 400);
    lemma_div_pos_is_pos(gy, 400);
    let cc = w / 100;
    let z = w % 100;
    lemma_fundamental_div_mod(w, 100);
    lemma_mod_division_less_than_divisor(w, 100);
    lemma_div_pos_is_pos(w, 100);
    lemma_div_is_ordered(w, 399, 100);
    assert(399int / 100 == 3) by {
        lemma_fundamental_div_mod_converse(399, 100, 3, 99);
    };
    assert(gy == 400 * qq + 100 * cc + z && 0 <= cc <= 3 && 0 <= z <= 99);
    lemma_gregorian_leap_split(qq, cc, z);
    let leap = spec_is_gregorian_leap(gy);
    lemma_days_upto_step(leap, 12);
    let dy = gregorian_doy0(gy, gm, gd);
    assert(dy == spec_days_upto(leap, gm) + gd - 1);
    assert(0 <= dy && dy <= if leap { 365int } else { 364int }) by {
        lemma_days_upto_step(leap, gm);
    };
    assert(dy <= if z % 4 == 0 { 365int } else { 364int });
    let x = block_offset(z) + dy;
    assert(x >= 0) by {
        lemma_div_pos_is_pos(z + 3, 4);
    };
    assert(x <= 36524) by {
        lemma_div_is_ordered(z + 3, 102, 4);
        assert(102int / 4 == 25) by {
            lemma_fundamental_div_mod_converse(102, 4, 25, 2);
        };
    };
    lemma_gregorian_year_split(qq, cc, z);
    let dc = gregorian_day_index(gy, gm, gd);
    let r0 = 36524 * cc + x + (if 100 * cc + z >= 1 { 1int } else { 0int })
        - (if z >= 1 { 1int } else { 0int });
    assert(dc == 146097 * qq + r0);
    assert(0 <= r0 <= 146096);
    assert(dc / 146097 == qq && dc % 146097 == r0) by {
        lemma_fundamental_div_mod_converse(dc, 146097, qq, r0);
    };
    lemma_block_reconstruct(z, dy);
    if cc == 0 {
        assert(r0 == x);
        assert(r0 <= 36524);
        assert(spec_decompose_gregorian(dc).0 == gy);
    } else {
        if z >= 1 {
            assert(r0 == 36524 * cc + x);
            assert(x >= 366) by {
                lemma_block_offset_mono(1, z);
                assert(block_offset(1) == 366) by {
                    lemma_fundamental_div_mod_converse(4, 4, 1, 0);
                };
            };
            assert(r0 > 36524);
            assert((r0 - 1) / 36524 == cc) by {
                lemma_fundamental_div_mod_converse(r0 - 1, 36524, cc, x - 1);
            };
            assert(spec_decompose_gregorian(dc).0 == gy);
        } else {
            // a century year that is not a multiple of 400 is not leap
            assert(!leap);
            assert(dy <= 364);
            assert(block_offset(0) == 0) by {
                lemma_fundamental_div_mod_converse(3, 4, 0, 3);
            };
            assert(r0 == 36524 * cc + dy + 1);
            assert(r0 > 36524);
            assert((r0 - 1) / 36524 == cc) by {
                lemma_fundamental_div_mod_converse(r0 - 1, 36524, cc, dy);
            };
            assert(spec_decompose_gregorian(dc).0 == gy);
        }
    }
    lemma_walk_reconstruct_from(leap, 1, gm, gd);
    assert(spec_decompose_gregorian(dc) == (gy, gm, gd));
}

/// The leap corrections of a year offset are nonnegative and the century
/// correction never outweighs the 4-year one, so a day index can be summed
/// in unsigned arithmetic.
pub(crate) proof fn lemma_leaps_before_bounds(y: int)
    requires
        1 <= y,
    ensures
        (y + 99) / 100 <= (y + 3) / 4,
        0 <= leaps_before(y),
{
    let x = (y + 3) / 4;
    lemma_fundamental_div_mod(y + 3, 4);
    lemma_mod_division_less_than_divisor(y + 3, 4);
    lemma_div_pos_is_pos(y + 3, 4);
    assert(x >= 1) by {
        lemma_div_is_ordered(4, y + 3, 4);
        assert(4int / 4 == 1) by {
            lemma_fundamental_div_mod_converse(4, 4, 1, 0);
        };
    };
    assert(y + 99 <= 100 * x + 99);
    lemma_div_is_ordered(y + 99, 100 * x + 99, 100);
    assert((100 * x + 99) / 100 == x) by {
        lemma_div_shift(x, 100, 99);
        assert(99int / 100 == 0) by {
            lemma_fundamental_div_mod_converse(99, 100, 0, 99);
        };
    };
    lemma_div_pos_is_pos(y + 399, 400);
}

/// The engine's Gregorian-side day count is the Jalali day index shifted by
/// a constant.
proof fn lemma_gregorian_day_count_is_index(jy: int, jm: int, jd: int)
    ensures
        spec_gregorian_day_count(jy, jm, jd) == jalali_day_index(jy, jm, jd) - 355667,
{
}

/// The leap corrections of the Jalali-side day count step by exactly one at
/// each leap year.
proof fn lemma_leaps_step(y: int)
    requires
        0 <= y,
    ensures
        leaps_before(y + 1) == leaps_before(y) + if spec_is_gregorian_leap(y) { 1int } else { 0int },
{
    let q4 = y / 4;
    let r4 = y % 4;
    lemma_fundamental_div_mod(y, 4);
    lemma_mod_division_less_than_divisor(y, 4);
    assert((y + 3) / 4 == q4 + if r4 > 0 { 1int } else { 0int }) by {
        if r4 == 0 {
            lemma_fundamental_div_mod_converse(y + 3, 4, q4, 3);
        } else {
            lemma_fundamental_div_mod_converse(y + 3, 4, q4 + 1, r4 - 1);
        }
    };
    assert((y + 4) / 4 == q4 + 1) by {
        lemma_fundamental_div_mod_converse(y + 4, 4, q4 + 1, r4);
    };
    let q100 = y / 100;
    let r100 = y % 100;
    lemma_fundamental_div_mod(y, 100);
    lemma_mod_division_less_than_divisor(y, 100);
    assert((y + 99) / 100 == q100 + if r100 > 0 { 1int } else { 0int }) by {
        if r100 == 0 {
            lemma_fundamental_div_mod_converse(y + 99, 100, q100, 99);
        } else {
            lemma_fundamental_div_mod_converse(y + 99, 100, q100 + 1, r100 - 1);
        }
    };
    assert((y + 100) / 100 == q100 + 1) by {
        lemma_fundamental_div_mod_converse(y + 100, 100, q100 + 1, r100);
    };
    let q400 = y / 400;
    let r400 = y % 400;
    lemma_fundamental_div_mod(y, 400);
    lemma_mod_division_less_than_divisor(y, 400);
    assert((y + 399) / 400 == q400 + if r400 > 0 { 1int } else { 0int }) by {
        if r400 == 0 {
            lemma_fundamental_div_mod_converse(y + 399, 400, q400, 399);
        } else {
            lemma_fundamental_div_mod_converse(y + 399, 400, q400 + 1, r400 - 1);
        }
    };
    assert((y + 400) / 400 == q400 + 1) by {
        lemma_fundamental_div_mod_converse(y + 400, 400, q400 + 1, r400);
    };
}

/// The engine's Jalali-side day count is the Gregorian day index shifted by
/// a constant: moving the year up by one after February counts the current
/// year's leap day exactly when it has passed.
proof fn lemma_jalali_day_count_is_index(gy: int, gm: int, gd: int)
    requires
        0 <= gy,
        1 <= gm <= 12,
    ensures
        spec_jalali_day_count(gy, gm, gd) == gregorian_day_index(gy, gm, gd) + 355667,
{
    if gm > 2 {
        lemma_leaps_step(gy);
    }
}

/// Converting a real Gregorian date to Jalali and back yields the original
/// date, and the intermediate Jalali date is valid.
pub proof fn lemma_gregorian_round_trip(gy: int, gm: int, gd: int)
    requires
        1 <= gy,
        1 <= gm <= 12,
        1 <= gd <= spec_gregorian_month_length(gy, gm),
    ensures
        ({
            let j = spec_gregorian_to_jalali(gy, gm, gd);
            &&& spec_jalali_to_gregorian(j.0, j.1, j.2) == (gy, gm, gd)
            &&& 1 <= j.1 <= 12
            &&& 1 <= j.2 <= spec_jalali_month_length(j.0, j.1)
        }),
{
    lemma_jalali_day_count_is_index(gy, gm, gd);
    let e = spec_jalali_day_count(gy, gm, gd);
    assert(e >= 0) by {
        lemma_div_pos_is_pos(gy + 3, 4);
        lemma_div_is_ordered(gy + 99, 100 * (gy + 99), 100);
        assert(gregorian_day_index(gy, gm, gd) >= 0) by {
            lemma_decompose_gregorian_reconstruct(gy, gm, gd);
        };
    };
    lemma_decompose_jalali_forward(e);
    let j = spec_decompose_jalali(e);
    lemma_gregorian_day_count_is_index(j.0, j.1, j.2);
    assert(spec_gregorian_day_count(j.0, j.1, j.2) == gregorian_day_index(gy, gm, gd));
    lemma_decompose_gregorian_reconstruct(gy, gm, gd);
}

/// Converting a valid Jalali date to Gregorian and back yields the original
/// date, and the intermediate Gregorian date is real.
pub proof fn lemma_jalali_round_trip(jy: int, jm: int, jd: int)
    requires
        MIN_ENGINE_JALALI_YEAR as int <= jy,
        1 <= jm <= 12,
        1 <= jd <= spec_jalali_month_length(jy, jm),
    ensures
        ({
            let g = spec_jalali_to_gregorian(jy, jm, jd);
            &&& spec_gregorian_to_jalali(g.0, g.1, g.2) == (jy, jm, jd)
            &&& 0 <= g.0
            &&& 1 <= g.1 <= 12
            &&& 1 <= g.2 <= spec_gregorian_month_length(g.0, g.1)
        }),
{
    lemma_gregorian_day_count_is_index(jy, jm, jd);
    let dc = spec_gregorian_day_count(jy, jm, jd);
    assert(dc >= 0) by {
        let n = jy + 1595;
        lemma_div_is_ordered(974, n, 33);
        assert(974int / 33 == 29) by {
            lemma_fundamental_div_mod_converse(974, 33, 29, 17);
        };
        lemma_div_pos_is_pos((n % 33) + 3, 4);
        lemma_mod_division_less_than_divisor(n, 33);
    };
    lemma_decompose_gregorian_forward(dc);
    let g = spec_decompose_gregorian(dc);
    lemma_jalali_day_count_is_index(g.0, g.1, g.2);
    assert(spec_jalali_day_count(g.0, g.1, g.2) == jalali_day_index(jy, jm, jd));
    lemma_decompose_jalali_reconstruct(jy, jm, jd);
}

/// A Jalali year is a leap year exactly when its last month has 30 days.
pub proof fn lemma_jalali_leap_iff_esfand_30(y: int)
    ensures
        spec_is_jalali_leap(y) <==> spec_jalali_month_length(y, 12) == 30,
{
}

} // verus!
