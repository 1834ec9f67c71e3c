//! The Julian day number of a Gregorian date and its inverse: the date that
//! `jdn_to_gregorian` computes for a day number has that day number again, so
//! a Hijri date converted to the Gregorian calendar and back is unchanged.
use vstd::prelude::*;
use crate::arith::{fits_i32, tdiv};
use crate::calendar::{
    CalendarKind, Date, date_jdn, greg_fields_from_jdn, greg_leap, greg_month_len,
    hijri_month_from, hijri_month_start, hijri_month_len, hijri_year_of, lemma_hijri_start_mono,
    spec_jdn_to_hijri,
    greg_days_before_month, greg_from_day_count, spec_from_gregorian, spec_gregorian_to_jdn,
    spec_hijri_to_jdn, spec_to_gregorian,
};
use crate::calendar_laws::{
    greg_ordinal, lemma_g2j_count, lemma_greg_split_valid, lemma_hijri_round_trip,
    valid_gregorian, valid_hijri,
};

verus! {

/// The date `greg_fields_from_jdn` computes for day number `j` (from the
/// Gregorian year -4800 on) is a real month and day whose day number is `j`.
pub proof fn lemma_jdn_round_trip(j: int)
    requires
        j >= -32044,
    ensures
        ({
            let f = greg_fields_from_jdn(j);
            &&& 1 <= f.1 <= 12
            &&& f.2 >= 1
            &&& spec_gregorian_to_jdn(f.0, f.1, f.2) == j
        }),
{
    let l0 = j + 68569;
    let n = tdiv(4 * l0, 146097);
    assert(n == (4 * l0) / 146097);
    assert(146097 * n <= 4 * l0 < 146097 * (n + 1)) by (nonlinear_arith)
        requires
            n == (4 * l0) / 146097,
            l0 >= 0,
    ;
    assert(n >= 1);
    let h = tdiv(146097 * n + 3, 4);
    assert(h == (146097 * n + 3) / 4);
    assert(h == 36524 * n + (n + 3) / 4);
    let l1 = l0 - h;
    assert(0 <= l1 <= 36524) by (nonlinear_arith)
        requires
            146097 * n <= 4 * l0 < 146097 * (n + 1),
            4 * h <= 146097 * n + 3 < 4 * h + 4,
            l1 == l0 - h,
    ;
    let x = l1 + 1;
    let i = tdiv(4000 * x, 1461001);
    assert(i == (4000 * x) / 1461001);
    assert(1461001 * i <= 4000 * x < 1461001 * (i + 1)) by (nonlinear_arith)
        requires
            i == (4000 * x) / 1461001,
            x >= 1,
    ;
    assert(0 <= i <= 99) by (nonlinear_arith)
        requires
            1461001 * i <= 4000 * x < 1461001 * (i + 1),
            1 <= x <= 36525,
    ;
    let q = tdiv(1461 * i, 4);
    assert(q == (1461 * i) / 4);
    assert(q == 365 * i + i / 4);
    assert(0 <= l1 - q <= 366) by (nonlinear_arith)
        requires
            1461001 * i <= 4000 * x < 1461001 * (i + 1),
            4 * q <= 1461 * i < 4 * q + 4,
            x == l1 + 1,
            1 <= x <= 36525,
            0 <= i,
    ;
    let l2 = l1 - q + 31;
    let jj = tdiv(80 * l2, 2447);
    assert(jj == (80 * l2) / 2447);
    assert(2447 * jj <= 80 * l2 < 2447 * (jj + 1)) by (nonlinear_arith)
        requires
            jj == (80 * l2) / 2447,
            l2 >= 0,
    ;
    assert(1 <= jj <= 12) by (nonlinear_arith)
        requires
            2447 * jj <= 80 * l2 < 2447 * (jj + 1),
            31 <= l2 <= 397,
    ;
    let r = tdiv(2447 * jj, 80);
    assert(r == (2447 * jj) / 80);
    let day = l2 - r;
    assert(jj == 1 || jj == 2 || jj == 3 || jj == 4 || jj == 5 || jj == 6 || jj == 7 || jj == 8
        || jj == 9 || jj == 10 || jj == 11 || jj == 12);
    let l3 = tdiv(jj, 11);
    let month = jj + 2 - 12 * l3;
    let year = 100 * (n - 49) + i + l3;
    let f = greg_fields_from_jdn(j);
    assert(f == (year, month, day));
    // The month as the forward formula sees it: March-based, a = 1 for
    // January and February.
    let a = tdiv(14 - month, 12);
    let yy = year + 4800 - a;
    let mm = month + 12 * a - 3;
    assert(a == l3);
    assert(mm == jj - 1);
    assert(tdiv(153 * mm + 2, 5) == r - 30);
    assert(yy == 100 * (n - 1) + i);
    assert(yy >= 0);
    assert(day >= 1);
    let u = (n - 1) / 4;
    let v = (n - 1) % 4;
    assert(n - 1 == 4 * u + v && 0 <= v < 4);
    assert(yy == 400 * u + 100 * v + i);
    assert(tdiv(yy, 4) == 25 * (n - 1) + i / 4) by {
        assert((400 * u + 100 * v + i) / 4 == 100 * u + 25 * v + i / 4) by (nonlinear_arith)
            requires
                0 <= i,
                0 <= u,
                0 <= v,
        ;
    }
    assert(tdiv(yy, 100) == n - 1) by {
        assert((400 * u + 100 * v + i) / 100 == 4 * u + v) by (nonlinear_arith)
            requires
                0 <= i <= 99,
                0 <= u,
                0 <= v,
        ;
    }
    assert(tdiv(yy, 400) == u) by {
        assert((400 * u + 100 * v + i) / 400 == u) by (nonlinear_arith)
            requires
                0 <= i <= 99,
                0 <= u,
                0 <= v < 4,
        ;
    }
    assert((n + 3) / 4 == u + 1);
}

/// Day of a March-based year (1 = 1 March) of the `d`-th of month `m`.
proof fn lemma_march_day(y: int, m: int, d: int)
    requires
        valid_gregorian(y, m, d),
    ensures
        ({
            let a = tdiv(14 - m, 12);
            let mm = m + 12 * a - 3;
            let big = d + tdiv(153 * mm + 2, 5);
            &&& a == if m <= 2 { 1int } else { 0int }
            &&& 0 <= mm <= 11
            &&& 1 <= big <= 366
            &&& big == 366 ==> m == 2 && d == 29 && greg_leap(y)
            &&& 2447 * (mm + 1) <= 80 * (big + 30) < 2447 * (mm + 2)
            &&& tdiv(2447 * (mm + 1), 80) - 30 == tdiv(153 * mm + 2, 5)
        }),
{
    assert(greg_month_len(y, m) <= 31);
}

/// The Julian day number of a real Gregorian date (from year 0 on) gives
/// the date back.
pub proof fn lemma_date_jdn_round_trip(y: int, m: int, d: int)
    requires
        y >= 0,
        valid_gregorian(y, m, d),
    ensures
        greg_fields_from_jdn(spec_gregorian_to_jdn(y, m, d)) == (y, m, d),
{
    lemma_march_day(y, m, d);
    let a = tdiv(14 - m, 12);
    let yy = y + 4800 - a;
    let mm = m + 12 * a - 3;
    let big = d + tdiv(153 * mm + 2, 5);
    let u = yy / 400;
    let c = (yy % 400) / 100;
    let k = ((yy % 400) % 100) / 4;
    let r = ((yy % 400) % 100) % 4;
    assert(yy == 400 * u + 100 * c + 4 * k + r && 0 <= c <= 3 && 0 <= k <= 24 && 0 <= r <= 3
        && u >= 11) by (nonlinear_arith)
        requires
            yy >= 4799,
            u == yy / 400,
            c == (yy % 400) / 100,
            k == ((yy % 400) % 100) / 4,
            r == ((yy % 400) % 100) % 4,
    ;
    assert(tdiv(yy, 4) == 100 * u + 25 * c + k) by (nonlinear_arith)
        requires
            yy == 400 * u + 100 * c + 4 * k + r,
            0 <= r <= 3,
            yy >= 0,
    ;
    assert(tdiv(yy, 100) == 4 * u + c) by (nonlinear_arith)
        requires
            yy == 400 * u + 100 * c + 4 * k + r,
            0 <= k <= 24,
            0 <= r <= 3,
            yy >= 0,
    ;
    assert(tdiv(yy, 400) == u) by (nonlinear_arith)
        requires
            yy == 400 * u + 100 * c + 4 * k + r,
            0 <= c <= 3,
            0 <= k <= 24,
            0 <= r <= 3,
            yy >= 0,
    ;
    let j = spec_gregorian_to_jdn(y, m, d);
    assert(j == big + 146097 * u + 36524 * c + 1461 * k + 365 * r - 32045);
    // A 29 February lies in a March-based year whose number is 3 modulo 4,
    // and not at the end of a century but the fourth.
    if big == 366 {
        assert(y % 4 == 0);
        assert(yy == y + 4799);
        assert(r == 3) by (nonlinear_arith)
            requires
                yy == y + 4799,
                y % 4 == 0,
                yy == 400 * u + 100 * c + 4 * k + r,
                0 <= r <= 3,
        ;
        if k == 24 {
            assert(c == 3) by (nonlinear_arith)
                requires
                    yy == y + 4799,
                    yy == 400 * u + 100 * c + 99,
                    0 <= c <= 3,
                    (y % 4 == 0 && y % 100 != 0) || y % 400 == 0,
            ;
        }
    }
    let l0 = j + 68569;
    let e = 5844 * k + 1460 * r + 4 * big - c - 1;
    assert(0 <= e < 146097);
    assert(4 * l0 == 146097 * (4 * u + c + 1) + e);
    let n = tdiv(4 * l0, 146097);
    assert(n == 4 * u + c + 1) by (nonlinear_arith)
        requires
            n == (4 * l0) / 146097,
            4 * l0 == 146097 * (4 * u + c + 1) + e,
            0 <= e < 146097,
    ;
    let h = tdiv(146097 * n + 3, 4);
    assert(h == 36524 * n + u + 1) by (nonlinear_arith)
        requires
            h == (146097 * n + 3) / 4,
            n == 4 * u + c + 1,
            0 <= c <= 3,
            u >= 0,
    ;
    let l1 = l0 - h;
    assert(l1 == 1461 * k + 365 * r + big - 1);
    let i = tdiv(4000 * (l1 + 1), 1461001);
    assert(i == 4 * k + r) by (nonlinear_arith)
        requires
            i == (4000 * (l1 + 1)) / 1461001,
            l1 + 1 == 1461 * k + 365 * r + big,
            0 <= k <= 24,
            0 <= r <= 3,
            1 <= big <= 366,
            big == 366 ==> r == 3,
    ;
    let q = tdiv(1461 * i, 4);
    assert(q == 1461 * k + 365 * r) by (nonlinear_arith)
        requires
            q == (1461 * i) / 4,
            i == 4 * k + r,
            0 <= r <= 3,
            k >= 0,
    ;
    let l2 = l1 - q + 31;
    assert(l2 == big + 30);
    let jj = tdiv(80 * l2, 2447);
    assert(jj == mm + 1) by (nonlinear_arith)
        requires
            jj == (80 * l2) / 2447,
            2447 * (mm + 1) <= 80 * l2 < 2447 * (mm + 2),
    ;
    assert(mm + 1 <= 10 ==> tdiv(jj, 11) == 0);
    assert(mm + 1 >= 11 ==> tdiv(jj, 11) == 1);
}

/// The Julian day number of a Gregorian date (from year 0 on) is its day
/// count from 1 January of year 0, shifted by 1721060.
pub proof fn lemma_jdn_of_ordinal(y: int, m: int, d: int)
    requires
        y >= 0,
        1 <= m <= 12,
    ensures
        spec_gregorian_to_jdn(y, m, d) == greg_ordinal(y, m, d) + 1721060,
{
    lemma_g2j_count(y, m, d);
    let z = if m > 2 { y } else { y - 1 };
    assert(z + 1 >= 0);
    assert(tdiv(z + 4800, 4) == tdiv(z + 4, 4) + 1199) by (nonlinear_arith)
        requires
            z + 1 >= 0,
    ;
    assert(tdiv(z + 4800, 100) == tdiv(z + 100, 100) + 47) by (nonlinear_arith)
        requires
            z + 1 >= 0,
    ;
    assert(tdiv(z + 4800, 400) == tdiv(z + 400, 400) + 11) by (nonlinear_arith)
        requires
            z + 1 >= 0,
    ;
    assert(tdiv(14 - m, 12) == if m <= 2 { 1int } else { 0int });
    assert(greg_days_before_month(m) == if m <= 2 {
        tdiv(153 * (m + 9) + 2, 5) - 306
    } else {
        tdiv(153 * (m - 3) + 2, 5) + 59
    });
}

/// The date `greg_fields_from_jdn` computes for a day number from Gregorian
/// year 0 on is a real date of year 0 or later.
pub proof fn lemma_jdn_fields_valid(j: int)
    requires
        j >= 1721060,
    ensures
        ({
            let f = greg_fields_from_jdn(j);
            &&& f == greg_from_day_count(j - 1721060)
            &&& valid_gregorian(f.0, f.1, f.2)
            &&& f.0 >= 0
        }),
{
    lemma_greg_split_valid(j - 1721060);
    let g = greg_from_day_count(j - 1721060);
    lemma_jdn_of_ordinal(g.0, g.1, g.2);
    lemma_date_jdn_round_trip(g.0, g.1, g.2);
}

/// Converting a Hijri date (from year 0 on) to the Gregorian calendar and
/// back gives the date again, when its Gregorian year is a machine integer.
pub proof fn lemma_hijri_gregorian_round_trip(h: Date)
    requires
        h.year >= 0,
        valid_hijri(h.year as int, h.month as int, h.day as int),
        fits_i32(
            greg_fields_from_jdn(spec_hijri_to_jdn(h.year as int, h.month as int, h.day as int)).0,
        ),
    ensures
        spec_from_gregorian(CalendarKind::Hijri, spec_to_gregorian(CalendarKind::Hijri, h)) == h,
{
    let jdn = spec_hijri_to_jdn(h.year as int, h.month as int, h.day as int);
    assert(jdn >= 1948085);
    lemma_jdn_round_trip(jdn);
    lemma_hijri_round_trip(h.year, h.month, h.day);
}

/// The month search of `jdn_to_hijri` ends at a month from `k` on whose
/// start the day has reached (or at `k` itself).
proof fn lemma_month_search(y: int, jdn: int, k: int)
    requires
        1 <= k <= 12,
    ensures
        k <= hijri_month_from(y, jdn, k) <= 12,
        hijri_month_from(y, jdn, k) == k || hijri_month_start(y, hijri_month_from(y, jdn, k))
            <= jdn,
        hijri_month_from(y, jdn, k) == 12 || hijri_month_start(
            y,
            hijri_month_from(y, jdn, k) + 1,
        ) > jdn,
    decreases 12 - k,
{
    if k < 12 && hijri_month_start(y, k + 1) <= jdn {
        lemma_month_search(y, jdn, k + 1);
    }
}

/// The Hijri date `jdn_to_hijri` computes for a day number from the first
/// day of Hijri year 0 on is a real date of year 0 or later whose day number
/// is the one it came from (when its year is a machine integer).
pub proof fn lemma_jdn_hijri_valid(jdn: int)
    requires
        jdn >= 1948085,
        fits_i32(tdiv(30 * (jdn - 1948439) + 10646, 10631)),
    ensures
        ({
            let h = spec_jdn_to_hijri(jdn);
            &&& h.year >= 0
            &&& valid_hijri(h.year as int, h.month as int, h.day as int)
            &&& spec_hijri_to_jdn(h.year as int, h.month as int, h.day as int) == jdn
        }),
{
    let v = 30 * (jdn - 1948439) + 10646;
    let y = tdiv(v, 10631);
    assert(y == v / 10631);
    assert(hijri_year_of(jdn) as int == y);
    assert(10631 * y <= v < 10631 * (y + 1)) by (nonlinear_arith)
        requires
            y == v / 10631,
            v >= 0,
    ;
    assert(y >= 0);
    let e = (3 + 11 * y) % 30;
    assert(tdiv(3 + 11 * y, 30) == (3 + 11 * y) / 30);
    let start = hijri_month_start(y, 1);
    assert(30 * (start - 1948439) == 10631 * y - 10617 - e);
    let offset = jdn - start;
    assert(0 <= offset <= 354);
    assert(offset == 354 ==> e >= 19);
    assert(e >= 19 ==> (11 * y + 14) % 30 < 11);
    lemma_month_search(y, jdn, 1);
    let m = hijri_month_from(y, jdn, 1);
    if m > 1 {
        lemma_hijri_start_mono(y, 1, m);
    }
    assert(start <= hijri_month_start(y, m) <= jdn);
    if m < 12 {
        assert(hijri_month_start(y, m + 1) == hijri_month_start(y, m) + hijri_month_len(y, m));
    } else {
        assert(hijri_month_start(y, 12) == start + 325);
    }
}

/// Converting a real Gregorian date (of year 0 or later, from the first day
/// of Hijri year 0 on) to the Hijri calendar and back gives the date again,
/// when its Hijri year is a machine integer.
pub proof fn lemma_gregorian_hijri_round_trip(g: Date)
    requires
        valid_gregorian(g.year as int, g.month as int, g.day as int),
        g.year >= 0,
        date_jdn(g) >= 1948085,
        fits_i32(tdiv(30 * (date_jdn(g) - 1948439) + 10646, 10631)),
    ensures
        spec_to_gregorian(CalendarKind::Hijri, spec_from_gregorian(CalendarKind::Hijri, g)) == g,
{
    let jdn = date_jdn(g);
    let v = 30 * (jdn - 1948439) + 10646;
    let y = tdiv(v, 10631);
    assert(y == v / 10631);
    assert(hijri_year_of(jdn) as int == y);
    assert(10631 * y <= v < 10631 * (y + 1)) by (nonlinear_arith)
        requires
            y == v / 10631,
            v >= 0,
    ;
    assert(y >= 0);
    let e = (3 + 11 * y) % 30;
    assert(tdiv(3 + 11 * y, 30) == (3 + 11 * y) / 30);
    let start = hijri_month_start(y, 1);
    assert(30 * (start - 1948439) == 10631 * y - 10617 - e);
    assert(start <= jdn <= start + 354);
    lemma_month_search(y, jdn, 1);
    let m = hijri_month_from(y, jdn, 1);
    if m > 1 {
        lemma_hijri_start_mono(y, 1, m);
    }
    assert(start <= hijri_month_start(y, m) <= jdn);
    let h = spec_from_gregorian(CalendarKind::Hijri, g);
    assert(h == (Date {
        year: y as i32,
        month: m as u32,
        day: (jdn - hijri_month_start(y, m) + 1) as u32,
    }));
    assert(spec_hijri_to_jdn(h.year as int, h.month as int, h.day as int) == jdn);
    lemma_date_jdn_round_trip(g.year as int, g.month as int, g.day as int);
}

} // verus!
