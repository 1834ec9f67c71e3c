use gahyar::calendar::{
    add_day, add_month, convert, days_in_month, first_weekday_saturday, format_heading,
    from_gregorian, gregorian_to_jalali, jalali_to_gregorian, month_name, month_name_fa,
    month_range_text, month_range_text_fa, to_gregorian, weekday_saturday, weekday_short,
    CalendarKind, Date,
};
use gahyar::text::persian_number;

#[test]
fn known_date_conversions() {
    let g = Date::new(2026, 8, 9);
    assert_eq!(
        from_gregorian(CalendarKind::Jalali, g),
        Date::new(1405, 5, 18)
    );
    assert_eq!(
        from_gregorian(CalendarKind::Hijri, g),
        Date::new(1448, 2, 25)
    );
    assert_eq!(
        to_gregorian(CalendarKind::Jalali, Date::new(1405, 1, 1)),
        Date::new(2026, 3, 21)
    );
}

#[test]
fn day_navigation_crosses_month_boundaries() {
    assert_eq!(
        add_day(CalendarKind::Gregorian, Date::new(2026, 8, 31), 1),
        Date::new(2026, 9, 1)
    );
    assert_eq!(
        add_day(CalendarKind::Jalali, Date::new(1405, 1, 1), -1),
        Date::new(1404, 12, 29)
    );
}

#[test]
fn calendar_keys_titles_and_cycle() {
    for kind in [CalendarKind::Jalali, CalendarKind::Gregorian, CalendarKind::Hijri] {
        assert_eq!(CalendarKind::from_key(kind.key()), kind);
        assert_eq!(kind.next().next().next(), kind);
        assert_ne!(kind.next(), kind);
    }
    assert_eq!(CalendarKind::Jalali.key(), "jalali");
    assert_eq!(CalendarKind::from_key("unknown"), CalendarKind::Jalali);
    assert_eq!(CalendarKind::from_key("hijri"), CalendarKind::Hijri);
    assert_eq!(CalendarKind::Gregorian.title(), "میلادی");
    assert_eq!(CalendarKind::Hijri.next(), CalendarKind::Jalali);
}

#[test]
fn month_names_clamp_out_of_range_months() {
    assert_eq!(month_name(CalendarKind::Gregorian, 1), "January");
    assert_eq!(month_name(CalendarKind::Gregorian, 0), "January");
    assert_eq!(month_name(CalendarKind::Gregorian, 13), "December");
    assert_eq!(month_name(CalendarKind::Jalali, 12), "اسفند");
    assert_eq!(month_name(CalendarKind::Hijri, 9), "رمضان");
    assert_eq!(month_name_fa(CalendarKind::Gregorian, 3), "مارس");
    assert_eq!(month_name_fa(CalendarKind::Jalali, 1), "فروردین");
}

#[test]
fn jalali_gregorian_round_trips() {
    for (j, g) in [
        ((1405, 1, 1), (2026, 3, 21)),
        ((1403, 12, 30), (2025, 3, 20)),
        ((1, 1, 1), (622, 3, 21)),
        ((1379, 10, 11), (2000, 12, 31)),
    ] {
        assert_eq!(jalali_to_gregorian(j.0, j.1, j.2), g);
        assert_eq!(gregorian_to_jalali(g.0, g.1, g.2), j);
    }
    // 30 Esfand of a common year is the first day of the next year.
    let g = jalali_to_gregorian(1404, 12, 30);
    assert_eq!(gregorian_to_jalali(g.0, g.1, g.2), (1405, 1, 1));
}

#[test]
fn month_lengths_of_each_calendar() {
    assert_eq!(days_in_month(CalendarKind::Jalali, 1403, 12), 30);
    assert_eq!(days_in_month(CalendarKind::Jalali, 1404, 12), 29);
    assert_eq!(days_in_month(CalendarKind::Jalali, 1404, 6), 31);
    assert_eq!(days_in_month(CalendarKind::Jalali, 1404, 7), 30);
    assert_eq!(days_in_month(CalendarKind::Jalali, 1404, 13), 30);
    assert_eq!(days_in_month(CalendarKind::Gregorian, 2024, 2), 29);
    assert_eq!(days_in_month(CalendarKind::Gregorian, 1900, 2), 28);
    assert_eq!(days_in_month(CalendarKind::Gregorian, 2000, 2), 29);
    assert_eq!(days_in_month(CalendarKind::Gregorian, 2026, 4), 30);
    assert_eq!(days_in_month(CalendarKind::Gregorian, 2026, 0), 30);
    assert_eq!(days_in_month(CalendarKind::Hijri, 1447, 1), 30);
    assert_eq!(days_in_month(CalendarKind::Hijri, 1447, 2), 29);
    // (11 * 1447 + 14) mod 30 = 1 < 11: a 30-day Dhu al-Hijjah.
    assert_eq!(days_in_month(CalendarKind::Hijri, 1447, 12), 30);
    assert_eq!(days_in_month(CalendarKind::Hijri, 1448, 12), 29);
}

#[test]
fn hijri_round_trip_through_gregorian() {
    for date in [
        Date::new(1448, 2, 25),
        Date::new(1447, 12, 30),
        Date::new(1445, 9, 1),
        Date::new(1, 1, 1),
    ] {
        let g = to_gregorian(CalendarKind::Hijri, date);
        assert_eq!(from_gregorian(CalendarKind::Hijri, g), date);
    }
    assert_eq!(
        to_gregorian(CalendarKind::Hijri, Date::new(1448, 2, 25)),
        Date::new(2026, 8, 9)
    );
}

#[test]
fn convert_between_calendars() {
    let j = Date::new(1405, 5, 18);
    assert_eq!(convert(j, CalendarKind::Jalali, CalendarKind::Jalali), j);
    assert_eq!(
        convert(j, CalendarKind::Jalali, CalendarKind::Hijri),
        Date::new(1448, 2, 25)
    );
    assert_eq!(
        convert(Date::new(1448, 2, 25), CalendarKind::Hijri, CalendarKind::Jalali),
        j
    );
}

#[test]
fn weekdays_start_on_saturday() {
    // 9 August 2026 is a Sunday.
    assert_eq!(weekday_saturday(Date::new(2026, 8, 9)), 1);
    // 21 March 2026 (1 Farvardin 1405) is a Saturday.
    assert_eq!(weekday_saturday(Date::new(2026, 3, 21)), 0);
    assert_eq!(first_weekday_saturday(CalendarKind::Jalali, 1405, 1), 0);
    assert_eq!(weekday_saturday(Date::new(2026, 3, 27)), 6);
}

#[test]
fn add_month_wraps_years() {
    let (mut y, mut m) = (1404, 12);
    add_month(CalendarKind::Jalali, &mut y, &mut m, 1);
    assert_eq!((y, m), (1405, 1));
    add_month(CalendarKind::Jalali, &mut y, &mut m, -13);
    assert_eq!((y, m), (1403, 12));
    add_month(CalendarKind::Gregorian, &mut y, &mut m, 0);
    assert_eq!((y, m), (1403, 12));
}

#[test]
fn add_day_steps_and_returns() {
    let d = Date::new(2024, 2, 28);
    assert_eq!(add_day(CalendarKind::Gregorian, d, 1), Date::new(2024, 2, 29));
    assert_eq!(add_day(CalendarKind::Gregorian, d, 2), Date::new(2024, 3, 1));
    assert_eq!(add_day(CalendarKind::Gregorian, Date::new(2025, 12, 31), 1), Date::new(2026, 1, 1));
    assert_eq!(add_day(CalendarKind::Gregorian, Date::new(2026, 1, 1), -1), Date::new(2025, 12, 31));
    assert_eq!(add_day(CalendarKind::Gregorian, Date::new(2026, 3, 1), -1), Date::new(2026, 2, 28));
    let far = add_day(CalendarKind::Jalali, Date::new(1405, 5, 18), 400);
    assert_eq!(add_day(CalendarKind::Jalali, far, -400), Date::new(1405, 5, 18));
    assert_eq!(add_day(CalendarKind::Hijri, Date::new(1448, 2, 25), 0), Date::new(1448, 2, 25));
}

#[test]
fn headings_and_month_ranges() {
    assert_eq!(format_heading(CalendarKind::Gregorian, 2026, 8, "x"), "August 2026");
    assert_eq!(format_heading(CalendarKind::Jalali, 1405, 5, "۱۴۰۵"), "مرداد ۱۴۰۵");
    assert_eq!(
        month_range_text(CalendarKind::Jalali, 1405, 1, CalendarKind::Gregorian),
        "March – April 2026"
    );
    assert_eq!(
        month_range_text(CalendarKind::Jalali, 1404, 10, CalendarKind::Gregorian),
        "December 2025 – January 2026"
    );
    assert_eq!(
        month_range_text(CalendarKind::Gregorian, 2026, 8, CalendarKind::Gregorian),
        "August 2026"
    );
    let fa = month_range_text_fa(
        CalendarKind::Gregorian,
        2026,
        8,
        CalendarKind::Jalali,
        |year| persian_number(year as i64),
    );
    assert_eq!(fa, "مرداد – شهریور ۱۴۰۵");
}

#[test]
fn weekday_header_letters_start_on_saturday() {
    let letters: Vec<&str> = (0..7).map(weekday_short).collect();
    assert_eq!(letters, vec!["ش", "ی", "د", "س", "چ", "پ", "ج"]);
}
