//! Why the calendar arithmetic is right: the Gregorian and Jalali day counts
//! and their decompositions are inverse to each other, so converting a date
//! to the other calendar and back gives it back.
use vstd::prelude::*;
use crate::arith::{tdiv, tmod};
use crate::calendar::{
    greg_leap, greg_month_len, greg_days_before_month, greg_year_split, greg_month_walk,
    greg_from_day_count, g2j_day_count, j2g_day_count, jalali_split, jal_month_offset,
    spec_jalali_to_gregorian, spec_gregorian_to_jalali, jalali_month_len, Date, hijri_month_len,
    hijri_month_start, hijri_year_of, spec_hijri_to_jdn, spec_jdn_to_hijri,
    lemma_hijri_month_from,
};

verus! {

// ---------------------------------------------------------------------------
// The Gregorian calendar
// ---------------------------------------------------------------------------

/// Leap years among years 0 .. y-1 (year 0 is a leap year).
pub open spec fn leap_count(y: int) -> int {
    (y + 3) / 4 - (y + 99) / 100 + (y + 399) / 400
}

/// Days from 1 January of year 0 to 1 January of year `y`.
pub open spec fn year_start(y: int) -> int {
    365 * y + leap_count(y)
}

pub open spec fn year_len(y: int) -> int {
    if greg_leap(y) {
        366
    } else {
        365
    }
}

/// Days of year `y` before month `m`.
pub open spec fn cum_days(y: int, m: int) -> int {
    greg_days_before_month(m) + if m > 2 && greg_leap(y) {
        1int
    } else {
        0int
    }
}

/// A real Gregorian date.
pub open spec fn valid_gregorian(y: int, m: int, d: int) -> bool {
    1 <= m <= 12 && 1 <= d <= greg_month_len(y, m)
}

#[verifier::spinoff_prover]
#[verifier::rlimit(30)]
pub proof fn lemma_leap_count_step(y: int)
    requires
        y >= 0,
    ensures
        leap_count(y + 1) == leap_count(y) + if greg_leap(y) {
            1int
        } else {
            0int
        },
{
}

/// Within one 400-year block the decomposition finds the year and the day
/// of the year.
#[verifier::rlimit(80)]
proof fn lemma_block_split(d0: int)
    requires
        0 <= d0 < 146097,
    ensures
        ({
            let (y0, doy) = greg_year_split(d0);
            &&& 0 <= y0 < 400
            &&& 0 <= doy < year_len(y0)
            &&& year_start(y0) + doy == d0
        }),
{
    let (y0, doy) = greg_year_split(d0);
    assert(tdiv(d0, 146097) == 0);
    assert(tmod(d0, 146097) == d0);
    if d0 > 36524 {
        let c = (d0 - 1) / 36524;
        let d = (d0 - 1) % 36524;
        assert(1 <= c <= 3);
        let d1 = if d >= 365 { d + 1 } else { d };
        let k = d1 / 1461;
        let d2 = d1 % 1461;
        assert(tdiv(d1, 1461) == k);
        assert(tmod(d1, 1461) == d2);
        if d2 > 365 {
            let j = (d2 - 1) / 365;
            assert(1 <= j <= 3);
            assert(y0 == 100 * c + 4 * k + j);
            assert(leap_count(y0) == 24 * c + k + 1);
        } else {
            assert(y0 == 100 * c + 4 * k);
            if d < 365 {
                assert(k == 0);
                assert(leap_count(y0) == 24 * c + 1);
            } else {
                assert(k >= 1);
                assert(leap_count(y0) == 24 * c + k);
            }
        }
    } else {
        let k = d0 / 1461;
        let d2 = d0 % 1461;
        assert(tdiv(d0, 1461) == k);
        assert(tmod(d0, 1461) == d2);
        if d2 > 365 {
            let j = (d2 - 1) / 365;
            assert(y0 == 4 * k + j);
            assert(leap_count(y0) == k + 1);
        } else {
            assert(y0 == 4 * k);
            assert(leap_count(y0) == k);
        }
    }
}


/// Conversely, a day of a year within a 400-year block is found again.
#[verifier::rlimit(80)]
proof fn lemma_block_join(y0: int, doy: int)
    requires
        0 <= y0 < 400,
        0 <= doy < year_len(y0),
    ensures
        0 <= year_start(y0) + doy < 146097,
        greg_year_split(year_start(y0) + doy) == (y0, doy),
{
    let c = y0 / 100;
    let r = y0 % 100;
    let k = r / 4;
    let j = r % 4;
    assert(y0 == 100 * c + 4 * k + j);
    let d0 = year_start(y0) + doy;
    if c == 0 {
        if j == 0 {
            assert(leap_count(y0) == k);
        } else {
            assert(leap_count(y0) == k + 1);
        }
    } else {
        if j == 0 && k == 0 {
            assert(leap_count(y0) == 24 * c + 1);
        } else if j == 0 {
            assert(leap_count(y0) == 24 * c + k);
        } else {
            assert(leap_count(y0) == 24 * c + k + 1);
        }
    }
    assert(0 <= d0 < 146097);
    assert(tdiv(d0, 146097) == 0);
    assert(tmod(d0, 146097) == d0);
    if c == 0 {
        assert(d0 == 1461 * k + 365 * j + (if j >= 1 { 1int } else { 0int }) + doy);
        assert(d0 <= 36524);
        let d2 = d0 - 1461 * k;
        assert(tdiv(d0, 1461) == k);
        assert(tmod(d0, 1461) == d2);
    } else {
        assert(d0 > 36524);
        let d = (d0 - 1) % 36524;
        assert((d0 - 1) / 36524 == c);
        if j == 0 && k == 0 {
            assert(d == doy);
        } else {
            assert(d == 1461 * k + 365 * j + (if j >= 1 { 1int } else { 0int }) + doy - 1);
            assert(d >= 365);
            let d1 = d + 1;
            assert(tdiv(d1, 1461) == k);
            assert(tmod(d1, 1461) == d1 - 1461 * k);
        }
    }
}

/// Shifting by whole 400-year blocks.
#[verifier::rlimit(80)]
proof fn lemma_year_shift(q: int, y0: int)
    requires
        q >= 0,
        0 <= y0 < 400,
    ensures
        year_start(400 * q + y0) == 146097 * q + year_start(y0),
        greg_leap(400 * q + y0) == greg_leap(y0),
        year_len(400 * q + y0) == year_len(y0),
        (400 * q + y0) / 400 == q,
        (400 * q + y0) % 400 == y0,
{
    assert((400 * q + y0 + 3) / 4 == 100 * q + (y0 + 3) / 4);
    assert((400 * q + y0 + 99) / 100 == 4 * q + (y0 + 99) / 100);
    assert((400 * q + y0 + 399) / 400 == q + (y0 + 399) / 400);
    assert((400 * q + y0) % 4 == y0 % 4);
    assert((400 * q + y0) % 100 == y0 % 100);
    assert((400 * q + y0) % 400 == y0 % 400);
}

proof fn lemma_split_shift(q: int, d0: int)
    requires
        q >= 0,
        0 <= d0 < 146097,
    ensures
        greg_year_split(146097 * q + d0) == (400 * q + greg_year_split(d0).0, greg_year_split(
            d0,
        ).1),
{
    let days = 146097 * q + d0;
    assert(tdiv(days, 146097) == q);
    assert(tmod(days, 146097) == d0);
    assert(tdiv(d0, 146097) == 0);
    assert(tmod(d0, 146097) == d0);
}

pub proof fn lemma_cum_step(y: int, m: int)
    requires
        1 <= m <= 11,
    ensures
        cum_days(y, m + 1) == cum_days(y, m) + greg_month_len(y, m),
{
}

pub proof fn lemma_cum_last(y: int)
    ensures
        cum_days(y, 12) + greg_month_len(y, 12) == year_len(y),
        cum_days(y, 1) == 0,
{
}

/// Walking the months from `m` finds a real date further into the year.
proof fn lemma_walk_from(y: int, g: int, m: int)
    requires
        1 <= m <= 12,
        g >= 1,
        cum_days(y, m) + g <= year_len(y),
    ensures
        ({
            let (mm, dd) = greg_month_walk(y, g, m);
            valid_gregorian(y, mm, dd) && cum_days(y, mm) + dd == cum_days(y, m) + g
        }),
    decreases 13 - m,
{
    lemma_cum_last(y);
    if g > greg_month_len(y, m) {
        if m == 12 {
            assert(false);
        } else {
            lemma_cum_step(y, m);
            lemma_walk_from(y, g - greg_month_len(y, m), m + 1);
        }
    }
}

proof fn lemma_cum_mono(y: int, a: int, b: int)
    requires
        1 <= a <= b <= 12,
    ensures
        cum_days(y, a) <= cum_days(y, b),
        a < b ==> cum_days(y, a) + greg_month_len(y, a) <= cum_days(y, b),
{
}

/// Walking from month `k` towards a real date of a later month finds it.
proof fn lemma_walk_to(y: int, k: int, m: int, d: int)
    requires
        1 <= k <= m,
        valid_gregorian(y, m, d),
    ensures
        greg_month_walk(y, cum_days(y, m) - cum_days(y, k) + d, k) == (m, d),
    decreases m - k,
{
    if k < m {
        lemma_cum_mono(y, k, m);
        lemma_cum_step(y, k);
        lemma_walk_to(y, k + 1, m, d);
    }
}

/// Day count (from 0) of a Gregorian date of year 0 or later.
pub open spec fn greg_ordinal(y: int, m: int, d: int) -> int {
    year_start(y) + cum_days(y, m) + d - 1
}

/// The count `gregorian_to_jalali` starts from is the ordinal of the date.
pub proof fn lemma_g2j_count(y: int, m: int, d: int)
    requires
        y >= 0,
        1 <= m <= 12,
    ensures
        g2j_day_count(y, m, d) == 355667 + greg_ordinal(y, m, d),
{
    if m > 2 {
        lemma_leap_count_step(y);
    }
}

/// Splitting a day count gives a real date whose ordinal is that count.
pub proof fn lemma_greg_split_valid(days: int)
    requires
        days >= 0,
    ensures
        ({
            let (y, m, d) = greg_from_day_count(days);
            &&& y >= 0
            &&& valid_gregorian(y, m, d)
            &&& greg_ordinal(y, m, d) == days
        }),
{
    let q = days / 146097;
    let d0 = days % 146097;
    lemma_block_split(d0);
    lemma_split_shift(q, d0);
    let (y0, doy) = greg_year_split(d0);
    lemma_year_shift(q, y0);
    let y = 400 * q + y0;
    lemma_cum_last(y);
    lemma_walk_from(y, doy + 1, 1);
}

/// Splitting the ordinal of a real date gives the date.
pub proof fn lemma_greg_split_of_ordinal(y: int, m: int, d: int)
    requires
        y >= 0,
        valid_gregorian(y, m, d),
    ensures
        greg_from_day_count(greg_ordinal(y, m, d)) == (y, m, d),
{
    let q = y / 400;
    let y0 = y % 400;
    lemma_year_shift(q, y0);
    lemma_cum_last(y);
    lemma_cum_mono(y, m, 12);
    let doy = cum_days(y, m) + d - 1;
    assert(0 <= doy < year_len(y));
    lemma_block_join(y0, doy);
    lemma_split_shift(q, year_start(y0) + doy);
    lemma_cum_last(y);
    lemma_walk_to(y, 1, m, d);
}


// ---------------------------------------------------------------------------
// The Jalali calendar (33-year arithmetic cycle)
// ---------------------------------------------------------------------------

/// Days from the start of Jalali year -1595 to the start of year `a - 1595`.
pub open spec fn jal_year_start(a: int) -> int {
    365 * a + 8 * (a / 33) + (a % 33 + 3) / 4
}

/// Jalali leap years: in each 33-year cycle the years 0, 4, …, 28.
pub open spec fn jal_leap(jy: int) -> bool {
    let r = (jy + 1595) % 33;
    r % 4 == 0 && r != 32
}

pub open spec fn jal_len(jy: int, m: int) -> int {
    if m <= 6 {
        31
    } else if m <= 11 {
        30
    } else if jal_leap(jy) {
        30
    } else {
        29
    }
}

/// A real Jalali date.
pub open spec fn valid_jalali(jy: int, m: int, d: int) -> bool {
    1 <= m <= 12 && 1 <= d <= jal_len(jy, m)
}

/// Day count (from 0) of a Jalali date of year -1595 or later.
pub open spec fn jal_ordinal(jy: int, m: int, d: int) -> int {
    jal_year_start(jy + 1595) + jal_month_offset(m) + d - 1
}

pub proof fn lemma_j2g_count(jy: int, m: int, d: int)
    requires
        jy + 1595 >= 0,
    ensures
        j2g_day_count(jy, m, d) == jal_ordinal(jy, m, d) - 355667,
{
    let a = jy + 1595;
    assert(tdiv(a, 33) == a / 33);
    assert(tmod(a, 33) == a % 33);
    assert(tdiv(a % 33 + 3, 4) == (a % 33 + 3) / 4);
}

/// A Jalali day count from a real date is negative before year -1595.
pub proof fn lemma_j2g_count_sign(jy: int, m: int, d: int)
    requires
        valid_jalali(jy, m, d),
        j2g_day_count(jy, m, d) >= 0,
    ensures
        jy + 1595 >= 0,
{
    let a = jy + 1595;
    if a < 0 {
        assert(tdiv(a, 33) <= 0);
        assert(tmod(a, 33) <= 0);
        assert(tdiv(tmod(a, 33) + 3, 4) <= 0);
        assert(j2g_day_count(jy, m, d) < 0);
    }
}

/// The day of year of a Jalali date.
proof fn lemma_jal_month_split(m: int, d: int, leap: bool)
    requires
        1 <= m <= 12,
        1 <= d <= (if m <= 6 {
            31int
        } else if m <= 11 {
            30int
        } else if leap {
            30int
        } else {
            29int
        }),
    ensures
        ({
            let doy = jal_month_offset(m) + d - 1;
            &&& 0 <= doy <= 365
            &&& !leap ==> doy <= 364
            &&& doy < 186 ==> 1 + tdiv(doy, 31) == m && 1 + tmod(doy, 31) == d
            &&& doy >= 186 ==> 7 + (doy - 186) / 30 == m && 1 + (doy - 186) % 30 == d
        }),
{
}

#[verifier::rlimit(80)]
pub proof fn lemma_jal_split_of_ordinal(jy: int, m: int, d: int)
    requires
        jy + 1595 >= 0,
        valid_jalali(jy, m, d),
    ensures
        jalali_split(jal_ordinal(jy, m, d)) == (jy, m, d),
{
    let a = jy + 1595;
    let big = a / 33;
    let r = a % 33;
    let k = r / 4;
    let j = r % 4;
    let doy = jal_month_offset(m) + d - 1;
    lemma_jal_month_split(m, d, jal_leap(jy));
    let n = jal_ordinal(jy, m, d);
    assert(jal_year_start(a) == 12053 * big + 1461 * k + 365 * j + (if j >= 1 { 1int } else { 0int }));
    let inner = 1461 * k + 365 * j + (if j >= 1 { 1int } else { 0int }) + doy;
    assert(0 <= inner < 12053);
    assert(n == 12053 * big + inner);
    assert(tdiv(n, 12053) == big);
    assert(tmod(n, 12053) == inner);
    assert(tdiv(inner, 1461) == k);
    assert(tmod(inner, 1461) == inner - 1461 * k);
}

#[verifier::rlimit(80)]
pub proof fn lemma_jal_split_valid(n: int)
    requires
        n >= 0,
    ensures
        ({
            let (jy, m, d) = jalali_split(n);
            &&& jy + 1595 >= 0
            &&& valid_jalali(jy, m, d)
            &&& jal_ordinal(jy, m, d) == n
        }),
{
    let (jy, m, d) = jalali_split(n);
    let big = n / 12053;
    let r0 = n % 12053;
    assert(tdiv(n, 12053) == big);
    assert(tmod(n, 12053) == r0);
    let k = r0 / 1461;
    let d1 = r0 % 1461;
    assert(tdiv(r0, 1461) == k);
    assert(tmod(r0, 1461) == d1);
    assert(0 <= k <= 8);
    let j = if d1 > 365 { (d1 - 1) / 365 } else { 0 };
    let d2 = if d1 > 365 { (d1 - 1) % 365 } else { d1 };
    assert(jy == -1595 + 33 * big + 4 * k + j);
    let a = jy + 1595;
    assert(a / 33 == big);
    assert(a % 33 == 4 * k + j);
    assert(jal_year_start(a) == 12053 * big + 1461 * k + 365 * j + (if j >= 1 { 1int } else { 0int }));
    if d2 < 186 {
        assert(tdiv(d2, 31) == d2 / 31);
        assert(tmod(d2, 31) == d2 % 31);
    }
}

/// Converting a Jalali date (from Gregorian year 0 on) to the Gregorian
/// calendar and back gives the date again.
pub proof fn lemma_jalali_round_trip(jy: int, jm: int, jd: int)
    requires
        valid_jalali(jy, jm, jd),
        j2g_day_count(jy, jm, jd) >= 0,
    ensures
        ({
            let g = spec_jalali_to_gregorian(jy, jm, jd);
            &&& valid_gregorian(g.0, g.1, g.2)
            &&& g.0 >= 0
            &&& spec_gregorian_to_jalali(g.0, g.1, g.2) == (jy, jm, jd)
        }),
{
    lemma_j2g_count_sign(jy, jm, jd);
    lemma_j2g_count(jy, jm, jd);
    let days = j2g_day_count(jy, jm, jd);
    lemma_greg_split_valid(days);
    let (y, m, d) = greg_from_day_count(days);
    lemma_g2j_count(y, m, d);
    lemma_jal_split_of_ordinal(jy, jm, jd);
}

/// Converting a Gregorian date of year 0 or later to the Jalali calendar
/// and back gives the date again.
pub proof fn lemma_gregorian_round_trip(gy: int, gm: int, gd: int)
    requires
        gy >= 0,
        valid_gregorian(gy, gm, gd),
    ensures
        ({
            let j = spec_gregorian_to_jalali(gy, gm, gd);
            &&& valid_jalali(j.0, j.1, j.2)
            &&& spec_jalali_to_gregorian(j.0, j.1, j.2) == (gy, gm, gd)
        }),
{
    lemma_g2j_count(gy, gm, gd);
    let n = g2j_day_count(gy, gm, gd);
    lemma_jal_split_valid(n);
    let (jy, jm, jd) = jalali_split(n);
    lemma_j2g_count(jy, jm, jd);
    lemma_greg_split_of_ordinal(gy, gm, gd);
}

/// Esfand, the twelfth Jalali month, has 30 days exactly in the leap years
/// of the 33-year cycle.
pub proof fn lemma_esfand_length(jy: int)
    requires
        j2g_day_count(jy, 12, 29) >= 0,
    ensures
        jalali_month_len(jy, 12) == if jal_leap(jy) {
            30int
        } else {
            29int
        },
{
    lemma_j2g_count_sign(jy, 12, 29);
    lemma_j2g_count(jy, 12, 30);
    if jal_leap(jy) {
        lemma_jalali_round_trip(jy, 12, 30);
    } else {
        let a = jy + 1595;
        let days = j2g_day_count(jy, 12, 30);
        lemma_greg_split_valid(days);
        let (y, m, d) = greg_from_day_count(days);
        lemma_g2j_count(y, m, d);
        // 30 Esfand of a common year is 1 Farvardin of the next.
        assert(jal_year_start(a + 1) == jal_year_start(a) + 365);
        lemma_jal_split_of_ordinal(jy + 1, 1, 1);
        assert(jal_ordinal(jy + 1, 1, 1) == jal_ordinal(jy, 12, 30));
    }
}


// ---------------------------------------------------------------------------
// The Hijri calendar (30-year arithmetic cycle)
// ---------------------------------------------------------------------------

/// A real Hijri date.
pub open spec fn valid_hijri(y: int, m: int, d: int) -> bool {
    1 <= m <= 12 && 1 <= d <= hijri_month_len(y, m)
}

proof fn lemma_hijri_month_starts(y: int, m: int)
    requires
        1 <= m <= 11,
    ensures
        hijri_month_start(y, m + 1) == hijri_month_start(y, m) + hijri_month_len(y, m),
{
}

/// The year estimate of the search is exact on real dates.
#[verifier::rlimit(40)]
proof fn lemma_hijri_year(y: int, m: int, d: int)
    requires
        y >= 0,
        valid_hijri(y, m, d),
    ensures
        tdiv(30 * (spec_hijri_to_jdn(y, m, d) - 1948439) + 10646, 10631) == y,
{
    let e = (3 + 11 * y) % 30;
    let start = hijri_month_start(y, 1);
    let jdn = spec_hijri_to_jdn(y, m, d);
    assert(tdiv(3 + 11 * y, 30) == (3 + 11 * y) / 30);
    assert(30 * (start - 1948439) == 10631 * y - 10617 - e);
    let offset = jdn - start;
    assert(0 <= offset <= 354);
    assert(offset == 354 ==> m == 12 && d == 30);
    assert(m == 12 && d == 30 ==> (11 * y + 14) % 30 < 11);
    assert(offset == 354 ==> e >= 19);
    let v = 30 * (jdn - 1948439) + 10646;
    assert(v == 10631 * y + 29 - e + 30 * offset);
    assert(10631 * y <= v < 10631 * y + 10631);
}

/// A Hijri date of year 0 or later survives the trip through its Julian day
/// number.
pub proof fn lemma_hijri_round_trip(y: i32, m: u32, d: u32)
    requires
        y >= 0,
        valid_hijri(y as int, m as int, d as int),
    ensures
        spec_jdn_to_hijri(spec_hijri_to_jdn(y as int, m as int, d as int)) == (Date {
            year: y,
            month: m,
            day: d,
        }),
{
    let jdn = spec_hijri_to_jdn(y as int, m as int, d as int);
    lemma_hijri_year(y as int, m as int, d as int);
    assert(hijri_year_of(jdn) == y);
    if m < 12 {
        lemma_hijri_month_starts(y as int, m as int);
    }
    lemma_hijri_month_from(y as int, jdn, 1, m as int);
}

} // verus!
