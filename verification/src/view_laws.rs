//! What the calendar window's navigation keeps: stepping a day and stepping
//! back returns to the selected day, and changing the main calendar there
//! and back keeps it.
use vstd::prelude::*;
use vstd::arithmetic::div_mod::lemma_fundamental_div_mod_converse;
use crate::arith::{fits_i32, tdiv, tmod};
use crate::calendar::{
    CalendarKind, Date, month_number, greg_next, greg_prev, greg_walk, spec_add_day,
    greg_fields_from_jdn, spec_hijri_to_jdn, date_jdn, spec_jdn_to_hijri, g2j_day_count,
    jalali_split, spec_days_in_month, jalali_month_len, greg_month_len, hijri_month_len,
    spec_to_gregorian, spec_from_gregorian, spec_jalali_to_gregorian, spec_gregorian_to_jalali,
    j2g_day_count,
};
use crate::jdn_laws::{
    lemma_jdn_of_ordinal, lemma_jdn_round_trip, lemma_gregorian_hijri_round_trip,
    lemma_hijri_gregorian_round_trip, lemma_jdn_fields_valid, lemma_jdn_hijri_valid,
};
use crate::calendar_laws::{
    lemma_cum_last, lemma_cum_step, lemma_leap_count_step, year_start, lemma_g2j_count,
    lemma_j2g_count, lemma_jal_split_valid, valid_hijri, valid_gregorian, valid_jalali, jal_len,
    lemma_jalali_round_trip, lemma_esfand_length, lemma_gregorian_round_trip,
};
use crate::settings::Settings;
use crate::view::{AppState, anchor_date, select_date, spec_set_main_calendar, step_target};

verus! {

/// The months after and before month `m` of year `y`.
pub proof fn lemma_neighbour_months(y: int, m: int)
    requires
        1 <= m <= 12,
    ensures
        month_number(y, m, 1) / 12 == if m == 12 { y + 1 } else { y },
        month_number(y, m, 1) % 12 + 1 == if m == 12 { 1 } else { m + 1 },
        month_number(y, m, -1) / 12 == if m == 1 { y - 1 } else { y },
        month_number(y, m, -1) % 12 + 1 == if m == 1 { 12 } else { m - 1 },
{
    if m == 12 {
        lemma_fundamental_div_mod_converse(month_number(y, m, 1), 12, y + 1, 0);
    } else {
        lemma_fundamental_div_mod_converse(month_number(y, m, 1), 12, y, m);
    }
    if m == 1 {
        lemma_fundamental_div_mod_converse(month_number(y, m, -1), 12, y - 1, 11);
    } else {
        lemma_fundamental_div_mod_converse(month_number(y, m, -1), 12, y, m - 2);
    }
}

/// Every month of every calendar has at least 28 days and at most 31.
pub proof fn lemma_month_length_range(kind: CalendarKind, y: int, m: int)
    ensures
        28 <= spec_days_in_month(kind, y, m) <= 31,
{
    assert(28 <= jalali_month_len(y, m) <= 31);
    assert(28 <= greg_month_len(y, m) <= 31);
    assert(28 <= hijri_month_len(y, m) <= 31);
}

/// A step forward then back, or back then forward, returns to the selected
/// day when it is a day of the month on display (and the neighbouring year
/// is a machine integer).
pub proof fn lemma_step_round_trip(s: AppState, d: u32, forward: bool)
    requires
        1 <= s.month <= 12,
        s.selected_day == Some(d),
        1 <= d <= spec_days_in_month(s.settings.main_calendar, s.year as int, s.month as int),
        forward ==> s.year < i32::MAX,
        !forward ==> s.year > i32::MIN,
    ensures
        step_target(select_date(s, step_target(s, forward)), !forward) == (Date {
            year: s.year,
            month: s.month,
            day: d,
        }),
{
    let kind = s.settings.main_calendar;
    let y = s.year as int;
    let m = s.month as int;
    lemma_neighbour_months(y, m);
    lemma_month_length_range(kind, y, m);
    let t = step_target(s, forward);
    lemma_neighbour_months(t.year as int, t.month as int);
    lemma_month_length_range(kind, t.year as int, t.month as int);
}

/// The state after a change of main calendar, written out.
proof fn lemma_switch_state(s: AppState, next: CalendarKind)
    ensures
        ({
            let converted = spec_from_gregorian(
                next,
                spec_to_gregorian(s.settings.main_calendar, anchor_date(s)),
            );
            let t = spec_set_main_calendar(s, next);
            &&& t.year == converted.year
            &&& t.month == converted.month
            &&& t.selected_day == Some(converted.day)
            &&& t.settings.main_calendar == next
            &&& t.settings == (Settings { main_calendar: next, ..s.settings })
        }),
{
    reveal(spec_set_main_calendar);
}

/// Changing the main calendar from Jalali to Gregorian and back keeps the
/// month on display and the selected day, for a real Jalali date from
/// Gregorian year 0 on whose Gregorian year is a machine integer.
pub proof fn lemma_switch_round_trip(s: AppState, d: u32)
    requires
        s.settings.main_calendar == CalendarKind::Jalali,
        s.selected_day == Some(d),
        valid_jalali(s.year as int, s.month as int, d as int),
        j2g_day_count(s.year as int, s.month as int, 1) >= 0,
        spec_jalali_to_gregorian(s.year as int, s.month as int, d as int).0 <= i32::MAX,
    ensures
        ({
            let back = spec_set_main_calendar(
                spec_set_main_calendar(s, CalendarKind::Gregorian),
                CalendarKind::Jalali,
            );
            &&& back.year == s.year
            &&& back.month == s.month
            &&& back.selected_day == s.selected_day
            &&& back.settings == s.settings
        }),
{
    let y = s.year as int;
    let m = s.month as int;
    let di = d as int;
    assert(anchor_date(s) == (Date { year: s.year, month: s.month, day: d })) by {
        if m == 12 {
            lemma_esfand_length(y);
        }
        assert(jal_len(y, m) == jalali_month_len(y, m));
    }
    let g = spec_jalali_to_gregorian(y, m, di);
    assert({
        &&& valid_gregorian(g.0, g.1, g.2)
        &&& g.0 >= 0
        &&& spec_gregorian_to_jalali(g.0, g.1, g.2) == (y, m, di)
    }) by {
        assert(j2g_day_count(y, m, di) >= 0);
        lemma_jalali_round_trip(y, m, di);
    }
    let gd = Date { year: g.0 as i32, month: g.1 as u32, day: g.2 as u32 };
    assert(spec_to_gregorian(CalendarKind::Jalali, anchor_date(s)) == gd);
    lemma_switch_state(s, CalendarKind::Gregorian);
    let t = spec_set_main_calendar(s, CalendarKind::Gregorian);
    assert(t.year == gd.year && t.month == gd.month && t.selected_day == Some(gd.day));
    assert(anchor_date(t) == gd);
    lemma_switch_state(t, CalendarKind::Jalali);
    assert(spec_from_gregorian(CalendarKind::Jalali, spec_to_gregorian(CalendarKind::Gregorian, gd))
        == (Date { year: s.year, month: s.month, day: d }));
}

/// Changing the main calendar from Hijri to Gregorian and back keeps the
/// month on display and the selected day, for a real Hijri date from year 0
/// on whose Gregorian year is a machine integer.
pub proof fn lemma_hijri_switch_round_trip(s: AppState, d: u32)
    requires
        s.settings.main_calendar == CalendarKind::Hijri,
        s.selected_day == Some(d),
        s.year >= 0,
        valid_hijri(s.year as int, s.month as int, d as int),
        fits_i32(greg_fields_from_jdn(spec_hijri_to_jdn(s.year as int, s.month as int, d as int)).0),
    ensures
        ({
            let back = spec_set_main_calendar(
                spec_set_main_calendar(s, CalendarKind::Gregorian),
                CalendarKind::Hijri,
            );
            &&& back.year == s.year
            &&& back.month == s.month
            &&& back.selected_day == s.selected_day
            &&& back.settings == s.settings
        }),
{
    let anchor = Date { year: s.year, month: s.month, day: d };
    assert(anchor_date(s) == anchor);
    let jdn = spec_hijri_to_jdn(s.year as int, s.month as int, d as int);
    assert(jdn >= 1948085);
    lemma_jdn_fields_valid(jdn);
    let f = greg_fields_from_jdn(jdn);
    let gd = Date { year: f.0 as i32, month: f.1 as u32, day: f.2 as u32 };
    assert(spec_to_gregorian(CalendarKind::Hijri, anchor) == gd);
    lemma_switch_state(s, CalendarKind::Gregorian);
    let t = spec_set_main_calendar(s, CalendarKind::Gregorian);
    assert(anchor_date(t) == gd);
    lemma_hijri_gregorian_round_trip(anchor);
    lemma_switch_state(t, CalendarKind::Hijri);
}

/// Changing the main calendar from Gregorian to Hijri and back keeps the
/// month on display and the selected day, for a real date of year 0 or later
/// from the first day of Hijri year 0 on, whose Hijri year is a
/// machine integer.
pub proof fn lemma_gregorian_switch_round_trip(s: AppState, d: u32)
    requires
        s.settings.main_calendar == CalendarKind::Gregorian,
        s.selected_day == Some(d),
        s.year >= 0,
        valid_gregorian(s.year as int, s.month as int, d as int),
        date_jdn(Date { year: s.year, month: s.month, day: d }) >= 1948085,
        fits_i32(
            tdiv(30 * (date_jdn(Date { year: s.year, month: s.month, day: d }) - 1948439) + 10646, 10631),
        ),
    ensures
        ({
            let back = spec_set_main_calendar(
                spec_set_main_calendar(s, CalendarKind::Hijri),
                CalendarKind::Gregorian,
            );
            &&& back.year == s.year
            &&& back.month == s.month
            &&& back.selected_day == s.selected_day
            &&& back.settings == s.settings
        }),
{
    let g = Date { year: s.year, month: s.month, day: d };
    assert(anchor_date(s) == g);
    lemma_jdn_hijri_valid(date_jdn(g));
    let h = spec_jdn_to_hijri(date_jdn(g));
    assert(spec_from_gregorian(CalendarKind::Hijri, spec_to_gregorian(CalendarKind::Gregorian, g)) == h);
    lemma_switch_state(s, CalendarKind::Hijri);
    let t = spec_set_main_calendar(s, CalendarKind::Hijri);
    assert(anchor_date(t) == h);
    lemma_gregorian_hijri_round_trip(g);
    lemma_switch_state(t, CalendarKind::Gregorian);
}

/// Changing the main calendar from Gregorian to Jalali and back keeps the
/// month on display and the selected day, for a real date from Gregorian
/// year 0 on whose Jalali year is a machine integer.
pub proof fn lemma_gregorian_jalali_switch_round_trip(s: AppState, d: u32)
    requires
        s.settings.main_calendar == CalendarKind::Gregorian,
        s.selected_day == Some(d),
        s.year >= 0,
        valid_gregorian(s.year as int, s.month as int, d as int),
        fits_i32(spec_gregorian_to_jalali(s.year as int, s.month as int, d as int).0),
    ensures
        ({
            let back = spec_set_main_calendar(
                spec_set_main_calendar(s, CalendarKind::Jalali),
                CalendarKind::Gregorian,
            );
            &&& back.year == s.year
            &&& back.month == s.month
            &&& back.selected_day == s.selected_day
            &&& back.settings == s.settings
        }),
{
    let y = s.year as int;
    let m = s.month as int;
    let di = d as int;
    let g = Date { year: s.year, month: s.month, day: d };
    assert(anchor_date(s) == g);
    let j = spec_gregorian_to_jalali(y, m, di);
    assert({
        &&& valid_jalali(j.0, j.1, j.2)
        &&& spec_jalali_to_gregorian(j.0, j.1, j.2) == (y, m, di)
    }) by {
        lemma_gregorian_round_trip(y, m, di);
    }
    let n = g2j_day_count(y, m, di);
    assert(j2g_day_count(j.0, j.1, j.2) == n - 355667 && n >= 355667) by {
        lemma_g2j_count(y, m, di);
        assert(n >= 355667);
        lemma_jal_split_valid(n);
        assert(j == jalali_split(n));
        lemma_j2g_count(j.0, j.1, j.2);
    }
    assert(jal_len(j.0, j.1) == jalali_month_len(j.0, j.1)) by {
        if j.1 == 12 {
            // 1 January of year 0 falls in Dey, so a day of Esfand is a
            // later one.
            assert(tdiv(355667, 12053) == 29 && tmod(355667, 12053) == 6130);
            assert(tdiv(6130, 1461) == 4 && tmod(6130, 1461) == 286);
            assert(jalali_split(355667).1 == 10);
            assert(n != 355667);
            assert(j2g_day_count(j.0, 12, 29) == j2g_day_count(j.0, j.1, j.2) + 29 - j.2);
            assert(j2g_day_count(j.0, 12, 29) >= 0);
            lemma_esfand_length(j.0);
        }
    }
    let jd = Date { year: j.0 as i32, month: j.1 as u32, day: j.2 as u32 };
    assert(spec_from_gregorian(CalendarKind::Jalali, spec_to_gregorian(CalendarKind::Gregorian, g)) == jd);
    lemma_switch_state(s, CalendarKind::Jalali);
    let t = spec_set_main_calendar(s, CalendarKind::Jalali);
    assert(anchor_date(t) == jd);
    assert(spec_to_gregorian(CalendarKind::Jalali, jd) == g);
    lemma_switch_state(t, CalendarKind::Gregorian);
}

/// The day after a real Gregorian date, and the day before that, is the date.
pub proof fn lemma_greg_next_prev(g: Date)
    requires
        valid_gregorian(g.year as int, g.month as int, g.day as int),
        g.year < i32::MAX,
    ensures
        valid_gregorian(greg_next(g).year as int, greg_next(g).month as int, greg_next(g).day as int),
        greg_next(g).year >= g.year,
        greg_prev(greg_next(g)) == g,
{
}

/// One day forward and one day back, through the Gregorian calendar.
proof fn lemma_one_day(kind: CalendarKind, date: Date)
    ensures
        spec_add_day(kind, date, 1) == spec_from_gregorian(
            kind,
            greg_next(spec_to_gregorian(kind, date)),
        ),
        spec_add_day(kind, date, -1) == spec_from_gregorian(
            kind,
            greg_prev(spec_to_gregorian(kind, date)),
        ),
{
    let g = spec_to_gregorian(kind, date);
    assert(greg_walk(g, 1, true) == greg_walk(greg_next(g), 0, true));
    assert(greg_walk(g, 1, false) == greg_walk(greg_prev(g), 0, false));
}

/// A day forward then a day back returns to the start, for a real Gregorian
/// date below the last machine-integer year.
pub proof fn lemma_gregorian_day_round_trip(date: Date)
    requires
        valid_gregorian(date.year as int, date.month as int, date.day as int),
        date.year < i32::MAX,
    ensures
        spec_add_day(CalendarKind::Gregorian, spec_add_day(CalendarKind::Gregorian, date, 1), -1)
            == date,
{
    lemma_greg_next_prev(date);
    lemma_one_day(CalendarKind::Gregorian, date);
    lemma_one_day(CalendarKind::Gregorian, greg_next(date));
}

/// The Gregorian date of a Jalali date, as `to_gregorian` writes it.
pub open spec fn jalali_day_in_gregorian(date: Date) -> Date {
    let g = spec_jalali_to_gregorian(date.year as int, date.month as int, date.day as int);
    Date { year: g.0 as i32, month: g.1 as u32, day: g.2 as u32 }
}

proof fn lemma_jalali_there_and_back(date: Date)
    requires
        valid_jalali(date.year as int, date.month as int, date.day as int),
        j2g_day_count(date.year as int, date.month as int, date.day as int) >= 0,
        spec_jalali_to_gregorian(date.year as int, date.month as int, date.day as int).0
            < i32::MAX,
    ensures
        valid_gregorian(
            jalali_day_in_gregorian(date).year as int,
            jalali_day_in_gregorian(date).month as int,
            jalali_day_in_gregorian(date).day as int,
        ),
        jalali_day_in_gregorian(date).year >= 0,
        spec_to_gregorian(CalendarKind::Jalali, date) == jalali_day_in_gregorian(date),
        spec_from_gregorian(CalendarKind::Jalali, jalali_day_in_gregorian(date)) == date,
{
    lemma_jalali_round_trip(date.year as int, date.month as int, date.day as int);
}

proof fn lemma_gregorian_there_and_back(n: Date)
    requires
        valid_gregorian(n.year as int, n.month as int, n.day as int),
        n.year >= 0,
        fits_i32(spec_gregorian_to_jalali(n.year as int, n.month as int, n.day as int).0),
    ensures
        spec_to_gregorian(CalendarKind::Jalali, spec_from_gregorian(CalendarKind::Jalali, n)) == n,
{
    lemma_gregorian_round_trip(n.year as int, n.month as int, n.day as int);
}

/// A day forward then a day back returns to the start, for a real Jalali
/// date from Gregorian year 0 on whose next day has machine-integer years in
/// both calendars.
pub proof fn lemma_jalali_day_round_trip(date: Date)
    requires
        valid_jalali(date.year as int, date.month as int, date.day as int),
        j2g_day_count(date.year as int, date.month as int, date.day as int) >= 0,
        spec_jalali_to_gregorian(date.year as int, date.month as int, date.day as int).0
            < i32::MAX,
        fits_i32(
            spec_gregorian_to_jalali(
                greg_next(jalali_day_in_gregorian(date)).year as int,
                greg_next(jalali_day_in_gregorian(date)).month as int,
                greg_next(jalali_day_in_gregorian(date)).day as int,
            ).0,
        ),
    ensures
        spec_add_day(CalendarKind::Jalali, spec_add_day(CalendarKind::Jalali, date, 1), -1) == date,
{
    let gd = jalali_day_in_gregorian(date);
    lemma_jalali_there_and_back(date);
    lemma_greg_next_prev(gd);
    let n = greg_next(gd);
    lemma_gregorian_there_and_back(n);
    let forward = spec_from_gregorian(CalendarKind::Jalali, n);
    lemma_one_day(CalendarKind::Jalali, date);
    lemma_one_day(CalendarKind::Jalali, forward);
}

/// The day after a real Gregorian date (of year 0 or later) comes one day
/// number later.
pub proof fn lemma_next_day_number(g: Date)
    requires
        valid_gregorian(g.year as int, g.month as int, g.day as int),
        0 <= g.year < i32::MAX,
    ensures
        date_jdn(greg_next(g)) == date_jdn(g) + 1,
{
    let y = g.year as int;
    let m = g.month as int;
    let n = greg_next(g);
    lemma_greg_next_prev(g);
    lemma_jdn_of_ordinal(y, m, g.day as int);
    lemma_jdn_of_ordinal(n.year as int, n.month as int, n.day as int);
    if (g.day as int) < greg_month_len(y, m) {
    } else if m < 12 {
        lemma_cum_step(y, m);
    } else {
        lemma_cum_last(y);
        lemma_leap_count_step(y);
        assert(year_start(y + 1) == year_start(y) + crate::calendar_laws::year_len(y));
    }
}

/// A day forward then a day back returns to the start, for a real Hijri
/// date from year 0 on whose next day has machine-integer years in both
/// calendars.
pub proof fn lemma_hijri_day_round_trip(h: Date)
    requires
        h.year >= 0,
        valid_hijri(h.year as int, h.month as int, h.day as int),
        greg_fields_from_jdn(spec_hijri_to_jdn(h.year as int, h.month as int, h.day as int)).0
            < i32::MAX,
        fits_i32(
            tdiv(
                30 * (spec_hijri_to_jdn(h.year as int, h.month as int, h.day as int) + 1 - 1948439)
                    + 10646,
                10631,
            ),
        ),
    ensures
        spec_add_day(CalendarKind::Hijri, spec_add_day(CalendarKind::Hijri, h, 1), -1) == h,
{
    let jdn = spec_hijri_to_jdn(h.year as int, h.month as int, h.day as int);
    assert(jdn >= 1948085);
    lemma_jdn_fields_valid(jdn);
    let f = greg_fields_from_jdn(jdn);
    let gd = Date { year: f.0 as i32, month: f.1 as u32, day: f.2 as u32 };
    assert(spec_to_gregorian(CalendarKind::Hijri, h) == gd);
    lemma_hijri_gregorian_round_trip(h);
    lemma_greg_next_prev(gd);
    let n = greg_next(gd);
    lemma_jdn_round_trip(jdn);
    assert(date_jdn(gd) == jdn);
    lemma_next_day_number(gd);
    lemma_gregorian_hijri_round_trip(n);
    let forward = spec_from_gregorian(CalendarKind::Hijri, n);
    lemma_one_day(CalendarKind::Hijri, h);
    lemma_one_day(CalendarKind::Hijri, forward);
}

} // verus!
