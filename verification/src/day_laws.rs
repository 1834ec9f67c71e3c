//! Counting days: `add_day` moves a date by its day number, so steps add up,
//! a step is undone by the opposite step, real dates stay real, and a month's
//! last day is followed by the next month's first. The laws hold from 1
//! January of Gregorian year 0 (the first day of Hijri year 0 for the Hijri
//! calendar) to day number `last_day_number()`.
use vstd::prelude::*;
use crate::arith::{tdiv, tmod, fits_i32, fits_i64, ceil_div};
use crate::calendar::{
    CalendarKind, Date, date_jdn, greg_next, greg_prev, greg_step, greg_walk, greg_month_len,
    spec_add_day, spec_to_gregorian, spec_from_gregorian, spec_days_in_month, jalali_month_len,
    hijri_month_len, j2g_day_count, g2j_day_count, jalali_split, spec_hijri_to_jdn,
    spec_gregorian_to_jalali, spec_jalali_to_gregorian, greg_fields_from_jdn, greg_from_day_count,
    abs_steps, spec_convert, spec_weekday_saturday, add_day_ok, greg_walk_ok, greg_step_ok,
    to_gregorian_ok, from_gregorian_ok, j2g_ok, g2j_ok, jdn_to_hijri_ok, hijri_year_of,
    hijri_month_start, convert_ok,
};
use crate::calendar_laws::{
    valid_gregorian, valid_jalali, valid_hijri, greg_ordinal, leap_count, cum_days, year_start,
    jal_len, jal_ordinal, jal_year_start, lemma_esfand_length, lemma_j2g_count,
    lemma_j2g_count_sign, lemma_jal_split_of_ordinal, lemma_jal_split_valid, lemma_g2j_count,
    lemma_greg_split_valid, lemma_jalali_round_trip, lemma_gregorian_round_trip,
};
use crate::jdn_laws::{
    lemma_jdn_of_ordinal, lemma_date_jdn_round_trip, lemma_jdn_round_trip, lemma_jdn_fields_valid,
    lemma_hijri_gregorian_round_trip, lemma_gregorian_hijri_round_trip, lemma_jdn_hijri_valid,
};
use crate::view_laws::{lemma_greg_next_prev, lemma_next_day_number, lemma_month_length_range};
use vstd::arithmetic::div_mod::{lemma_fundamental_div_mod_converse, lemma_add_mod_noop_right};
use crate::view::{
    AppState, current_day, spec_main_date_heading, weekday_name, weekday_of, number_text,
    spec_first_weekday,
};

verus! {

/// The last day number the counting laws cover (in Gregorian year 2,185,000
/// or so, far inside machine integers in all three calendars).
pub open spec fn last_day_number() -> int {
    800_000_000
}

/// A real Gregorian date from year 0 on.
pub open spec fn real_gregorian(g: Date) -> bool {
    valid_gregorian(g.year as int, g.month as int, g.day as int) && g.year >= 0
}

/// A year of 365 days or more lies behind each year of a real date.
proof fn lemma_year_bound(g: Date)
    requires
        real_gregorian(g),
    ensures
        date_jdn(g) >= 1721060 + 365 * g.year,
{
    let y = g.year as int;
    lemma_jdn_of_ordinal(y, g.month as int, g.day as int);
    assert(leap_count(y) >= 0);
    assert(cum_days(y, g.month as int) >= 0);
}

/// Two real Gregorian dates with one day number are one date.
proof fn lemma_gregorian_by_number(a: Date, b: Date)
    requires
        real_gregorian(a),
        real_gregorian(b),
        date_jdn(a) == date_jdn(b),
    ensures
        a == b,
{
    lemma_date_jdn_round_trip(a.year as int, a.month as int, a.day as int);
    lemma_date_jdn_round_trip(b.year as int, b.month as int, b.day as int);
}

/// The day before a real date after 1 January of year 0 is real and one
/// day number earlier.
proof fn lemma_prev_day_number(g: Date)
    requires
        real_gregorian(g),
        date_jdn(g) > 1721060,
        g.year < i32::MAX,
    ensures
        real_gregorian(greg_prev(g)),
        date_jdn(greg_prev(g)) == date_jdn(g) - 1,
{
    let y = g.year as int;
    if g.month == 1 && g.day == 1 && y == 0 {
        lemma_jdn_of_ordinal(0, 1, 1);
        assert(greg_ordinal(0, 1, 1) == 0);
    }
    let q = greg_prev(g);
    assert(real_gregorian(q));
    assert(greg_next(q) == g);
    lemma_next_day_number(q);
}

/// Walking `n` days from a real date, within the covered days, ends on the
/// real date `n` day numbers away.
pub proof fn lemma_gregorian_walk(g: Date, n: nat, forward: bool)
    requires
        real_gregorian(g),
        forward ==> date_jdn(g) + n <= last_day_number(),
        !forward ==> date_jdn(g) - n >= 1721060,
        date_jdn(g) <= last_day_number(),
    ensures
        real_gregorian(greg_walk(g, n, forward)),
        date_jdn(greg_walk(g, n, forward)) == date_jdn(g) + if forward { n as int } else { -n },
    decreases n,
{
    if n > 0 {
        lemma_year_bound(g);
        assert(g.year < i32::MAX);
        let s = greg_step(g, forward);
        if forward {
            lemma_greg_next_prev(g);
            lemma_next_day_number(g);
        } else {
            lemma_prev_day_number(g);
        }
        lemma_gregorian_walk(s, (n - 1) as nat, forward);
    }
}


// ---------------------------------------------------------------------------
// Month lengths, stated directly
// ---------------------------------------------------------------------------

/// Esfand's length, as `days_in_month` finds it, is the leap rule's whenever
/// a day of that Jalali year from Farvardin to Esfand falls on or after 1
/// January of Gregorian year 0 (`d` days into month `m`).
#[verifier::spinoff_prover]
#[verifier::rlimit(40)]
proof fn lemma_jalali_len_agrees(jy: int, m: int, d: int)
    requires
        1 <= m <= 12,
        1 <= d <= 31,
        m == 12 ==> d <= 30,
        j2g_day_count(jy, m, d) >= 0,
    ensures
        jalali_month_len(jy, m) == jal_len(jy, m),
{
    if m == 12 {
        if d == 30 && j2g_day_count(jy, 12, 30) == 0 {
            // Then 29 Esfand would be the day before 1 January of year 0,
            // whose Jalali month is Dey, not Esfand.
            let a = jy + 1595;
            if a < 0 {
                assert(tdiv(a, 33) <= 0);
                assert(tmod(a, 33) <= 0);
                assert(tdiv(tmod(a, 33) + 3, 4) <= 0);
            }
            assert(a >= 0);
            lemma_j2g_count(jy, 12, 29);
            assert(valid_jalali(jy, 12, 29));
            lemma_jal_split_of_ordinal(jy, 12, 29);
            assert(tdiv(355666, 12053) == 29 && tmod(355666, 12053) == 6129);
            assert(tdiv(6129, 1461) == 4 && tmod(6129, 1461) == 285);
            assert(jalali_split(355666).1 == 10);
        }
        assert(j2g_day_count(jy, 12, 29) >= 0);
        lemma_esfand_length(jy);
    }
}

/// The Jalali month lengths are the direct rule: 31 days in the first six
/// months, 30 in the next five, and 30 in Esfand exactly in the leap years
/// of the 33-year cycle, for every year whose 29 Esfand falls on or after 1
/// January of Gregorian year 0.
pub proof fn lemma_jalali_month_length(jy: int, m: int)
    requires
        1 <= m <= 12,
        j2g_day_count(jy, 12, 29) >= 0,
    ensures
        jalali_month_len(jy, m) == jal_len(jy, m),
{
    if m == 12 {
        lemma_esfand_length(jy);
    }
}

// ---------------------------------------------------------------------------
// Dates of each calendar and their day numbers
// ---------------------------------------------------------------------------

/// A date of the calendar: a month of the year and a day of the month, as
/// `days_in_month` counts its days.
pub open spec fn valid_date(kind: CalendarKind, d: Date) -> bool {
    1 <= d.month <= 12 && 1 <= d.day <= spec_days_in_month(kind, d.year as int, d.month as int)
}

/// The day number (Julian day) of a date of the calendar, through the
/// calendar's own arithmetic.
pub open spec fn count_of(kind: CalendarKind, d: Date) -> int {
    match kind {
        CalendarKind::Gregorian => date_jdn(d),
        CalendarKind::Jalali => j2g_day_count(d.year as int, d.month as int, d.day as int) + 1721060,
        CalendarKind::Hijri => spec_hijri_to_jdn(d.year as int, d.month as int, d.day as int),
    }
}

/// The first day number the laws cover: 1 January of Gregorian year 0, or
/// 1 Muharram of Hijri year 0.
pub open spec fn first_day_number(kind: CalendarKind) -> int {
    if kind == CalendarKind::Hijri { 1948085 } else { 1721060 }
}

/// A date of the calendar within the covered days.
pub open spec fn covered(kind: CalendarKind, d: Date) -> bool {
    &&& valid_date(kind, d)
    &&& first_day_number(kind) <= count_of(kind, d) <= last_day_number()
    &&& kind != CalendarKind::Jalali ==> d.year >= 0
}

/// The day number of a date: that of its Gregorian date.
pub open spec fn day_number(kind: CalendarKind, d: Date) -> int {
    date_jdn(spec_to_gregorian(kind, d))
}

/// A Gregorian date from a day count is no later in years than the count
/// allows.
proof fn lemma_split_year_bound(n: int)
    requires
        0 <= n,
    ensures
        greg_from_day_count(n).0 <= n / 365,
        greg_from_day_count(n).0 >= 0,
        valid_gregorian(greg_from_day_count(n).0, greg_from_day_count(n).1, greg_from_day_count(n).2),
        greg_ordinal(greg_from_day_count(n).0, greg_from_day_count(n).1, greg_from_day_count(n).2) == n,
{
    lemma_greg_split_valid(n);
    let f = greg_from_day_count(n);
    assert(leap_count(f.0) >= 0);
    assert(cum_days(f.0, f.1) >= 0);
    assert(365 * f.0 <= n);
}

/// A covered date's Gregorian date is real, has the date's day number, and
/// converts back to the date.
#[verifier::spinoff_prover]
#[verifier::rlimit(40)]
pub proof fn lemma_covered_to_gregorian(kind: CalendarKind, d: Date)
    requires
        covered(kind, d),
    ensures
        real_gregorian(spec_to_gregorian(kind, d)),
        day_number(kind, d) == count_of(kind, d),
        spec_from_gregorian(kind, spec_to_gregorian(kind, d)) == d,
{
    let y = d.year as int;
    let m = d.month as int;
    let dd = d.day as int;
    match kind {
        CalendarKind::Gregorian => {},
        CalendarKind::Jalali => {
            lemma_jalali_len_agrees(y, m, dd);
            lemma_jalali_round_trip(y, m, dd);
            let n = j2g_day_count(y, m, dd);
            lemma_split_year_bound(n);
            let g = spec_jalali_to_gregorian(y, m, dd);
            lemma_jdn_of_ordinal(g.0, g.1, g.2);
        },
        CalendarKind::Hijri => {
            let j = spec_hijri_to_jdn(y, m, dd);
            lemma_jdn_fields_valid(j);
            lemma_split_year_bound(j - 1721060);
            lemma_jdn_round_trip(j);
            lemma_hijri_gregorian_round_trip(d);
        },
    }
}

#[verifier::spinoff_prover]
#[verifier::rlimit(40)]
proof fn lemma_gregorian_to_jalali_covered(g: Date)
    requires
        real_gregorian(g),
        1721060 <= date_jdn(g) <= last_day_number(),
    ensures
        covered(CalendarKind::Jalali, spec_from_gregorian(CalendarKind::Jalali, g)),
        spec_to_gregorian(CalendarKind::Jalali, spec_from_gregorian(CalendarKind::Jalali, g)) == g,
{
    let y = g.year as int;
    let m = g.month as int;
    let dd = g.day as int;
    lemma_gregorian_round_trip(y, m, dd);
    lemma_g2j_count(y, m, dd);
    lemma_jdn_of_ordinal(y, m, dd);
    let n = g2j_day_count(y, m, dd);
    lemma_jal_split_valid(n);
    let j = jalali_split(n);
    lemma_j2g_count(j.0, j.1, j.2);
    assert(j2g_day_count(j.0, j.1, j.2) == date_jdn(g) - 1721060);
    let a = j.0 + 1595;
    assert(jal_year_start(a) >= 365 * a);
    assert(j.0 < i32::MAX);
    assert(j.1 == 12 ==> j.2 <= 30);
    lemma_jalali_len_agrees(j.0, j.1, j.2);
    assert(spec_gregorian_to_jalali(y, m, dd) == j);
}

#[verifier::spinoff_prover]
#[verifier::rlimit(40)]
proof fn lemma_gregorian_to_hijri_covered(g: Date)
    requires
        real_gregorian(g),
        1948085 <= date_jdn(g) <= last_day_number(),
    ensures
        covered(CalendarKind::Hijri, spec_from_gregorian(CalendarKind::Hijri, g)),
        spec_to_gregorian(CalendarKind::Hijri, spec_from_gregorian(CalendarKind::Hijri, g)) == g,
{
    let j = date_jdn(g);
    assert(tdiv(30 * (j - 1948439) + 10646, 10631) <= 30 * j / 10631);
    lemma_jdn_hijri_valid(j);
    lemma_gregorian_hijri_round_trip(g);
}

/// A real Gregorian date within the calendar's covered days is the Gregorian
/// date of a covered date of the calendar.
pub proof fn lemma_gregorian_to_covered(kind: CalendarKind, g: Date)
    requires
        real_gregorian(g),
        first_day_number(kind) <= date_jdn(g) <= last_day_number(),
    ensures
        covered(kind, spec_from_gregorian(kind, g)),
        spec_to_gregorian(kind, spec_from_gregorian(kind, g)) == g,
{
    match kind {
        CalendarKind::Gregorian => {},
        CalendarKind::Jalali => lemma_gregorian_to_jalali_covered(g),
        CalendarKind::Hijri => lemma_gregorian_to_hijri_covered(g),
    }
}


// ---------------------------------------------------------------------------
// Adding days
// ---------------------------------------------------------------------------

/// Two covered dates of a calendar with one day number are one date.
pub proof fn lemma_covered_by_number(kind: CalendarKind, d: Date, e: Date)
    requires
        covered(kind, d),
        covered(kind, e),
        count_of(kind, d) == count_of(kind, e),
    ensures
        d == e,
{
    lemma_covered_to_gregorian(kind, d);
    lemma_covered_to_gregorian(kind, e);
    lemma_gregorian_by_number(spec_to_gregorian(kind, d), spec_to_gregorian(kind, e));
}

/// Adding `a` days to a covered date gives the covered date whose day number
/// is `a` higher, whenever that number is covered too.
pub proof fn lemma_add_day_moves(kind: CalendarKind, d: Date, a: int)
    requires
        covered(kind, d),
        first_day_number(kind) <= count_of(kind, d) + a <= last_day_number(),
    ensures
        covered(kind, spec_add_day(kind, d, a)),
        count_of(kind, spec_add_day(kind, d, a)) == count_of(kind, d) + a,
{
    lemma_covered_to_gregorian(kind, d);
    let g = spec_to_gregorian(kind, d);
    let w = greg_walk(g, abs_steps(a), a >= 0);
    lemma_gregorian_walk(g, abs_steps(a), a >= 0);
    lemma_gregorian_to_covered(kind, w);
    lemma_covered_to_gregorian(kind, spec_add_day(kind, d, a));
}

/// Day steps add up and undo each other: `a` days and then `b` days is
/// `a + b` days, zero days is the date itself, and `a` days back after `a`
/// days forward is the date again, for covered dates whose results are
/// covered.
#[verifier::spinoff_prover]
#[verifier::rlimit(40)]
pub proof fn lemma_add_day_steps(kind: CalendarKind, d: Date, a: int, b: int)
    requires
        covered(kind, d),
        first_day_number(kind) <= count_of(kind, d) + a <= last_day_number(),
        first_day_number(kind) <= count_of(kind, d) + a + b <= last_day_number(),
    ensures
        spec_add_day(kind, spec_add_day(kind, d, a), b) == spec_add_day(kind, d, a + b),
        spec_add_day(kind, d, 0) == d,
        spec_add_day(kind, spec_add_day(kind, d, a), -a) == d,
{
    let da = spec_add_day(kind, d, a);
    lemma_add_day_moves(kind, d, a);
    lemma_add_day_moves(kind, da, b);
    lemma_add_day_moves(kind, d, a + b);
    lemma_covered_by_number(kind, spec_add_day(kind, da, b), spec_add_day(kind, d, a + b));
    lemma_add_day_moves(kind, d, 0);
    lemma_covered_by_number(kind, spec_add_day(kind, d, 0), d);
    lemma_add_day_moves(kind, da, -a);
    lemma_covered_by_number(kind, spec_add_day(kind, da, -a), d);
}

// ---------------------------------------------------------------------------
// Month ends
// ---------------------------------------------------------------------------

/// The first day of the month after month `m` of year `y`.
pub open spec fn next_month_first(y: i32, m: u32) -> Date {
    if m < 12 {
        Date { year: y, month: (m + 1) as u32, day: 1 }
    } else {
        Date { year: (y + 1) as i32, month: 1, day: 1 }
    }
}

/// The last day of month `m` of year `y`.
pub open spec fn month_last(kind: CalendarKind, y: i32, m: u32) -> Date {
    Date { year: y, month: m, day: spec_days_in_month(kind, y as int, m as int) as u32 }
}

proof fn lemma_next_count_gregorian(y: i32, m: u32)
    requires
        covered(CalendarKind::Gregorian, Date { year: y, month: m, day: 1 }),
    ensures
        count_of(CalendarKind::Gregorian, next_month_first(y, m)) == count_of(
            CalendarKind::Gregorian,
            month_last(CalendarKind::Gregorian, y, m),
        ) + 1,
{
    let first = Date { year: y, month: m, day: 1 };
    lemma_year_bound(first);
    let last = month_last(CalendarKind::Gregorian, y, m);
    assert(greg_next(last) == next_month_first(y, m));
    lemma_next_day_number(last);
}

#[verifier::spinoff_prover]
#[verifier::rlimit(40)]
proof fn lemma_next_count_jalali(y: i32, m: u32)
    requires
        covered(CalendarKind::Jalali, Date { year: y, month: m, day: 1 }),
        m == 12 ==> y < i32::MAX,
    ensures
        count_of(CalendarKind::Jalali, next_month_first(y, m)) == count_of(
            CalendarKind::Jalali,
            month_last(CalendarKind::Jalali, y, m),
        ) + 1,
{
    let yi = y as int;
    let mi = m as int;
    lemma_jalali_len_agrees(yi, mi, 1);
    if m == 12 {
        assert(valid_jalali(yi, 12, 1));
        lemma_j2g_count_sign(yi, 12, 1);
        let a = yi + 1595;
        let q = a / 33;
        let r = a % 33;
        assert(tdiv(a, 33) == q && tmod(a, 33) == r);
        assert(tdiv(a + 1, 33) == (a + 1) / 33 && tmod(a + 1, 33) == (a + 1) % 33);
        if r < 32 {
            lemma_fundamental_div_mod_converse(a + 1, 33, q, r + 1);
        } else {
            lemma_fundamental_div_mod_converse(a + 1, 33, q + 1, 0);
        }
        assert(tdiv(r + 3, 4) == (r + 3) / 4);
    }
}

#[verifier::spinoff_prover]
#[verifier::rlimit(40)]
proof fn lemma_next_count_hijri(y: i32, m: u32)
    requires
        covered(CalendarKind::Hijri, Date { year: y, month: m, day: 1 }),
        m == 12 ==> y < i32::MAX,
    ensures
        count_of(CalendarKind::Hijri, next_month_first(y, m)) == count_of(
            CalendarKind::Hijri,
            month_last(CalendarKind::Hijri, y, m),
        ) + 1,
{
    let yi = y as int;
    let mi = m as int;
    if m < 12 {
        assert(tdiv(59 * (mi - 1) + 1, 2) == (59 * (mi - 1) + 1) / 2);
        assert(tdiv(59 * mi + 1, 2) == (59 * mi + 1) / 2);
        if mi % 2 == 1 {
            lemma_fundamental_div_mod_converse(59 * (mi - 1) + 1, 2, (59 * (mi - 1)) / 2, 1);
        } else {
            lemma_fundamental_div_mod_converse(59 * mi + 1, 2, (59 * mi) / 2, 1);
        }
    } else {
        let x = 11 * yi + 3;
        let q = x / 30;
        let r = x % 30;
        assert(tdiv(x, 30) == q);
        assert(tdiv(x + 11, 30) == (x + 11) / 30);
        if r < 19 {
            lemma_fundamental_div_mod_converse(x + 11, 30, q, r + 11);
        } else {
            lemma_fundamental_div_mod_converse(x + 11, 30, q + 1, r - 19);
        }
        assert((11 * yi + 14) % 30 == (x + 11) % 30);
    }
}

/// The day after a month's last day is the next month's first day, and the
/// last day is the first day moved by the month's length less one, in every
/// calendar, for covered months (the year after the last month below the
/// largest machine year).
#[verifier::spinoff_prover]
#[verifier::rlimit(40)]
pub proof fn lemma_month_ends(kind: CalendarKind, y: i32, m: u32)
    requires
        covered(kind, Date { year: y, month: m, day: 1 }),
        count_of(kind, Date { year: y, month: m, day: 1 }) + spec_days_in_month(kind, y as int, m as int)
            <= last_day_number(),
        m == 12 ==> y < i32::MAX,
    ensures
        covered(kind, month_last(kind, y, m)),
        covered(kind, next_month_first(y, m)),
        spec_add_day(
            kind,
            Date { year: y, month: m, day: 1 },
            spec_days_in_month(kind, y as int, m as int) - 1,
        ) == month_last(kind, y, m),
        spec_add_day(kind, month_last(kind, y, m), 1) == next_month_first(y, m),
{
    let first = Date { year: y, month: m, day: 1 };
    let n = spec_days_in_month(kind, y as int, m as int);
    let last = month_last(kind, y, m);
    let next = next_month_first(y, m);
    lemma_month_length_range(kind, y as int, m as int);
    assert(count_of(kind, last) == count_of(kind, first) + n - 1);
    assert(covered(kind, last));
    match kind {
        CalendarKind::Gregorian => lemma_next_count_gregorian(y, m),
        CalendarKind::Jalali => lemma_next_count_jalali(y, m),
        CalendarKind::Hijri => lemma_next_count_hijri(y, m),
    }
    lemma_month_length_range(kind, next.year as int, next.month as int);
    assert(covered(kind, next));
    lemma_add_day_moves(kind, first, n - 1);
    lemma_covered_by_number(kind, spec_add_day(kind, first, n - 1), last);
    lemma_add_day_moves(kind, last, 1);
    lemma_covered_by_number(kind, spec_add_day(kind, last, 1), next);
}


// ---------------------------------------------------------------------------
// Converting, and weekdays
// ---------------------------------------------------------------------------

/// Converting within one calendar changes nothing, and the Gregorian
/// calendar is its own Gregorian date, for any date at all.
pub proof fn lemma_convert_same(d: Date, kind: CalendarKind)
    ensures
        spec_convert(d, kind, kind) == d,
        spec_to_gregorian(CalendarKind::Gregorian, d) == d,
        spec_from_gregorian(CalendarKind::Gregorian, d) == d,
        convert_ok(d, kind, kind),
        to_gregorian_ok(CalendarKind::Gregorian, d),
        from_gregorian_ok(CalendarKind::Gregorian, d),
{
}

/// Converting a covered date to another calendar and back gives the date
/// again, and the converted date is a covered date of the other calendar
/// with the same day number, whenever that day number is covered there.
pub proof fn lemma_convert_round_trip(d: Date, from: CalendarKind, to: CalendarKind)
    requires
        covered(from, d),
        first_day_number(to) <= count_of(from, d),
    ensures
        covered(to, spec_convert(d, from, to)),
        count_of(to, spec_convert(d, from, to)) == count_of(from, d),
        spec_convert(spec_convert(d, from, to), to, from) == d,
{
    if from != to {
        lemma_covered_to_gregorian(from, d);
        let g = spec_to_gregorian(from, d);
        lemma_gregorian_to_covered(to, g);
        let e = spec_from_gregorian(to, g);
        lemma_covered_to_gregorian(to, e);
    }
}

/// The weekday after a real Gregorian date is the next one, Saturday after
/// Friday, for every date but the very last of the largest machine year.
#[verifier::spinoff_prover]
#[verifier::rlimit(40)]
pub proof fn lemma_weekday_next(g: Date)
    requires
        real_gregorian(g),
        g.year < i32::MAX || g.month < 12 || (g.day as int) < greg_month_len(g.year as int, 12),
    ensures
        0 <= spec_weekday_saturday(g) < 7,
        spec_weekday_saturday(greg_next(g)) == (spec_weekday_saturday(g) + 1) % 7,
{
    let y = g.year as int;
    let m = g.month as int;
    if g.year < i32::MAX {
        lemma_next_day_number(g);
    } else {
        let n = greg_next(g);
        lemma_jdn_of_ordinal(y, m, g.day as int);
        lemma_jdn_of_ordinal(n.year as int, n.month as int, n.day as int);
        if (g.day as int) >= greg_month_len(y, m) {
            crate::calendar_laws::lemma_cum_step(y, m);
        }
        assert(date_jdn(n) == date_jdn(g) + 1);
    }
    let j = date_jdn(g);
    let r = j % 7;
    lemma_fundamental_div_mod_converse(j + 1, 7, if r == 6 { j / 7 + 1 } else { j / 7 }, if r == 6 { 0 } else { r + 1 });
}

/// 21 March 2026 is a Saturday and 9 August 2026 a Sunday.
pub proof fn lemma_weekday_anchors()
    ensures
        spec_weekday_saturday(Date { year: 2026, month: 3, day: 21 }) == 0,
        spec_weekday_saturday(Date { year: 2026, month: 8, day: 9 }) == 1,
{
    assert(date_jdn(Date { year: 2026, month: 3, day: 21 }) == 2461121);
    assert(date_jdn(Date { year: 2026, month: 8, day: 9 }) == 2461262);
}


/// Every date of years 1000 to 2000 of any of the three calendars is
/// covered, with day numbers to spare on either side for a few centuries of
/// day steps.
#[verifier::spinoff_prover]
#[verifier::rlimit(40)]
pub proof fn lemma_covered_years(kind: CalendarKind, d: Date)
    requires
        valid_date(kind, d),
        1000 <= d.year <= 2000,
    ensures
        covered(kind, d),
        2080000 <= count_of(kind, d) <= 3000000,
{
    let y = d.year as int;
    let m = d.month as int;
    let dd = d.day as int;
    lemma_month_length_range(kind, y, m);
    match kind {
        CalendarKind::Gregorian => {
            lemma_jdn_of_ordinal(y, m, dd);
            assert((y + 3) / 4 <= 501 && (y + 99) / 100 >= 10 && (y + 399) / 400 <= 6);
            assert((y + 3) / 4 >= 250 && (y + 99) / 100 <= 20 && (y + 399) / 400 >= 3);
            assert(0 <= cum_days(y, m) <= 335);
        },
        CalendarKind::Jalali => {
            let a = y + 1595;
            assert(tdiv(a, 33) == a / 33 && tmod(a, 33) == a % 33);
            assert(0 <= a % 33 < 33);
            assert(a / 33 <= a);
        },
        CalendarKind::Hijri => {
            assert(tdiv(59 * (m - 1) + 1, 2) == (59 * (m - 1) + 1) / 2);
            assert(tdiv(3 + 11 * y, 30) == (3 + 11 * y) / 30);
        },
    }
}


/// For dates of years 1000 to 2000 and steps of up to a hundred years each
/// way, day steps add up, zero days change nothing and a step is undone by
/// the opposite step.
pub proof fn lemma_add_day_steps_in_years(kind: CalendarKind, d: Date, a: int, b: int)
    requires
        valid_date(kind, d),
        1000 <= d.year <= 2000,
        -36500 <= a <= 36500,
        -36500 <= b <= 36500,
    ensures
        spec_add_day(kind, spec_add_day(kind, d, a), b) == spec_add_day(kind, d, a + b),
        spec_add_day(kind, d, 0) == d,
        spec_add_day(kind, spec_add_day(kind, d, a), -a) == d,
        valid_date(kind, spec_add_day(kind, d, a)),
        add_day_ok(kind, d, a),
        add_day_ok(kind, spec_add_day(kind, d, a), b),
        add_day_ok(kind, spec_add_day(kind, d, a), -a),
        add_day_ok(kind, d, a + b),
        add_day_ok(kind, d, 0),
{
    lemma_covered_years(kind, d);
    lemma_add_day_steps(kind, d, a, b);
    lemma_add_day_moves(kind, d, a);
    lemma_add_day_ok(kind, d, a);
    lemma_add_day_ok(kind, spec_add_day(kind, d, a), b);
    lemma_add_day_ok(kind, spec_add_day(kind, d, a), -a);
    lemma_add_day_ok(kind, d, a + b);
    lemma_add_day_ok(kind, d, 0);
}

/// For dates of years 1000 to 2000, converting to another calendar and back
/// gives the date again.
pub proof fn lemma_convert_round_trip_in_years(d: Date, from: CalendarKind, to: CalendarKind)
    requires
        valid_date(from, d),
        1000 <= d.year <= 2000,
    ensures
        spec_convert(spec_convert(d, from, to), to, from) == d,
        spec_from_gregorian(from, spec_to_gregorian(from, d)) == d,
        convert_ok(d, from, to),
        convert_ok(spec_convert(d, from, to), to, from),
        to_gregorian_ok(from, d),
        from_gregorian_ok(from, spec_to_gregorian(from, d)),
{
    lemma_covered_years(from, d);
    lemma_convert_round_trip(d, from, to);
    lemma_covered_to_gregorian(from, d);
    lemma_convert_ok(d, from, to);
    lemma_convert_ok(spec_convert(d, from, to), to, from);
    lemma_to_gregorian_ok(from, d);
    lemma_from_gregorian_ok(from, spec_to_gregorian(from, d));
}

/// For months of years 1000 to 2000, the month's last day is its first
/// moved by its length less one, and the next day is the next month's first.
pub proof fn lemma_month_ends_in_years(kind: CalendarKind, y: i32, m: u32)
    requires
        1 <= m <= 12,
        1000 <= y <= 2000,
    ensures
        spec_add_day(
            kind,
            Date { year: y, month: m, day: 1 },
            spec_days_in_month(kind, y as int, m as int) - 1,
        ) == month_last(kind, y, m),
        spec_add_day(kind, month_last(kind, y, m), 1) == next_month_first(y, m),
        valid_date(kind, month_last(kind, y, m)),
        add_day_ok(
            kind,
            Date { year: y, month: m, day: 1 },
            spec_days_in_month(kind, y as int, m as int) - 1,
        ),
        add_day_ok(kind, month_last(kind, y, m), 1),
{
    let first = Date { year: y, month: m, day: 1 };
    let n = spec_days_in_month(kind, y as int, m as int);
    lemma_month_length_range(kind, y as int, m as int);
    lemma_covered_years(kind, first);
    lemma_month_ends(kind, y, m);
    lemma_add_day_ok(kind, first, n - 1);
    lemma_add_day_moves(kind, first, n - 1);
    lemma_add_day_ok(kind, month_last(kind, y, m), 1);
}


// ---------------------------------------------------------------------------
// The machine-range conditions of the executable functions
// ---------------------------------------------------------------------------

/// The steps of a walk within the covered days stay within machine years.
proof fn lemma_gregorian_walk_ok(g: Date, n: nat, forward: bool)
    requires
        real_gregorian(g),
        forward ==> date_jdn(g) + n <= last_day_number(),
        !forward ==> date_jdn(g) - n >= 1721060,
        date_jdn(g) <= last_day_number(),
    ensures
        greg_walk_ok(g, n, forward),
    decreases n,
{
    if n > 0 {
        lemma_year_bound(g);
        let s = greg_step(g, forward);
        if forward {
            lemma_greg_next_prev(g);
            lemma_next_day_number(g);
        } else {
            lemma_prev_day_number(g);
        }
        lemma_gregorian_walk_ok(s, (n - 1) as nat, forward);
    }
}

/// A covered date converts to the Gregorian calendar within machine integers.
proof fn lemma_to_gregorian_ok(kind: CalendarKind, d: Date)
    requires
        covered(kind, d),
    ensures
        to_gregorian_ok(kind, d),
{
    if kind == CalendarKind::Jalali {
        let y = d.year as int;
        let m = d.month as int;
        let dd = d.day as int;
        lemma_month_length_range(kind, y, m);
        lemma_jalali_len_agrees(y, m, dd);
        lemma_j2g_count_sign(y, m, dd);
        let a = y + 1595;
        assert(tdiv(a, 33) == a / 33 && tmod(a, 33) == a % 33);
        assert(0 <= a / 33 <= a);
        assert(j2g_ok(y, m, dd));
    }
}

/// A real Gregorian date within the calendar's covered days converts to the
/// calendar within machine integers.
#[verifier::spinoff_prover]
#[verifier::rlimit(40)]
proof fn lemma_from_gregorian_ok(kind: CalendarKind, g: Date)
    requires
        real_gregorian(g),
        first_day_number(kind) <= date_jdn(g) <= last_day_number(),
    ensures
        from_gregorian_ok(kind, g),
{
    lemma_year_bound(g);
    if kind == CalendarKind::Jalali {
        assert(g2j_ok(g.year as int, g.month as int, g.day as int));
    } else if kind == CalendarKind::Hijri {
        let j = date_jdn(g);
        assert(tdiv(30 * (j - 1948439) + 10646, 10631) <= 30 * j / 10631);
        lemma_jdn_hijri_valid(j);
        let y = hijri_year_of(j) as int;
        let h = crate::calendar::spec_jdn_to_hijri(j);
        assert(h.year as int == y);
        assert(forall|m: int| 1 <= m < 12 ==> #[trigger] hijri_month_start(y, m + 1) == hijri_month_start(y, m) + hijri_month_len(y, m));
        assert(hijri_month_start(y, 1) <= j <= hijri_month_start(y, 1) + 354);
        assert(forall|m: int| 1 <= m <= 12 ==> hijri_month_start(y, 1) <= #[trigger] hijri_month_start(y, m) <= hijri_month_start(y, 1) + 325);
        let x = j - (29 + hijri_month_start(y, 1));
        assert(-29 <= x <= 325);
        assert(ceil_div(2 * x, 59) < 100);
    }
}

/// Adding `a` days to a covered date, landing on a covered day, stays
/// within machine integers, so `add_day` accepts it.
pub proof fn lemma_add_day_ok(kind: CalendarKind, d: Date, a: int)
    requires
        covered(kind, d),
        first_day_number(kind) <= count_of(kind, d) + a <= last_day_number(),
    ensures
        add_day_ok(kind, d, a),
{
    lemma_covered_to_gregorian(kind, d);
    lemma_to_gregorian_ok(kind, d);
    let g = spec_to_gregorian(kind, d);
    lemma_gregorian_walk(g, abs_steps(a), a >= 0);
    lemma_gregorian_walk_ok(g, abs_steps(a), a >= 0);
    lemma_from_gregorian_ok(kind, greg_walk(g, abs_steps(a), a >= 0));
}

/// Converting a covered date to a calendar that covers its day stays within
/// machine integers, so `convert` accepts it.
pub proof fn lemma_convert_ok(d: Date, from: CalendarKind, to: CalendarKind)
    requires
        covered(from, d),
        first_day_number(to) <= count_of(from, d),
    ensures
        convert_ok(d, from, to),
{
    if from != to {
        lemma_covered_to_gregorian(from, d);
        lemma_to_gregorian_ok(from, d);
        lemma_from_gregorian_ok(to, spec_to_gregorian(from, d));
    }
}


// ---------------------------------------------------------------------------
// The heading's weekday
// ---------------------------------------------------------------------------

/// Within a covered month, the weekday of a day is the weekday of the
/// month's first day moved on by the days between them.
pub proof fn lemma_weekday_in_month(kind: CalendarKind, y: i32, m: u32, d: u32)
    requires
        covered(kind, Date { year: y, month: m, day: 1 }),
        covered(kind, Date { year: y, month: m, day: d }),
    ensures
        spec_weekday_saturday(spec_to_gregorian(kind, Date { year: y, month: m, day: d }))
            == weekday_of(spec_first_weekday(kind, y, m), d),
{
    let first = Date { year: y, month: m, day: 1 };
    let date = Date { year: y, month: m, day: d };
    lemma_covered_to_gregorian(kind, first);
    lemma_covered_to_gregorian(kind, date);
    lemma_month_length_range(kind, y as int, m as int);
    let j1 = count_of(kind, first);
    assert(count_of(kind, date) == j1 + d - 1);
    assert((d as i32) as int == d as int);
    lemma_weekday_shift(j1, d as int);
}

/// Moving `d - 1` days on moves the weekday `d - 1` steps on.
proof fn lemma_weekday_shift(j1: int, d: int)
    ensures
        ((j1 + d - 1) % 7 + 2) % 7 == ((j1 % 7 + 2) % 7 + d - 1) % 7,
{
    lemma_add_mod_noop_right(2, j1 + d - 1, 7);
    lemma_add_mod_noop_right(d - 1, j1 % 7 + 2, 7);
    lemma_add_mod_noop_right(d + 1, j1, 7);
}

/// The heading names the weekday of the day it shows (the selected day,
/// else today in today's month, else the first), followed by that day, the
/// month and the year; its weekday is the day's own, however today falls.
pub proof fn lemma_heading_names_its_day(s: AppState)
    requires
        covered(s.settings.main_calendar, Date { year: s.year, month: s.month, day: 1 }),
        covered(
            s.settings.main_calendar,
            Date { year: s.year, month: s.month, day: current_day(s) },
        ),
    ensures
        ({
            let kind = s.settings.main_calendar;
            let day = current_day(s);
            let shown = spec_to_gregorian(kind, Date { year: s.year, month: s.month, day });
            spec_main_date_heading(s) == weekday_name(spec_weekday_saturday(shown)) + "، "@
                + number_text(kind, day as int) + " "@ + crate::calendar::spec_month_name(
                kind,
                s.month as int,
            ) + " "@ + number_text(kind, s.year as int)
        }),
{
    lemma_weekday_in_month(s.settings.main_calendar, s.year, s.month, current_day(s));
}

} // verus!
