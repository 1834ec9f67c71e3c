use gahyar::calendar::{
    add_day, convert, days_in_month, from_gregorian, to_gregorian, weekday_saturday, CalendarKind,
    Date,
};
use gahyar::choices::apply_setting;
use gahyar::clicks::InstallationState;
use gahyar::events::EventStore;
use gahyar::panel::{next_focus, rows, Action};
use gahyar::settings::Settings;
use gahyar::view::{AppState, ViewMode};

fn state(kind: CalendarKind, year: i32, month: u32, day: u32) -> AppState {
    AppState {
        settings: Settings { main_calendar: kind, ..Settings::default() },
        events: EventStore::unreadable("none".to_string()),
        today_gregorian: Date::new(2026, 9, 7),
        year,
        month,
        selected_day: Some(day),
        view: ViewMode::Calendar,
        event_scroll: 0,
        hovered_cell: None,
    }
}

#[test]
fn hijri_and_gregorian_conversions_invert_each_other() {
    for h in [
        Date::new(1448, 3, 25),
        Date::new(1447, 12, 30),
        Date::new(1, 1, 1),
        Date::new(0, 1, 1),
        Date::new(0, 12, 29),
    ] {
        let g = to_gregorian(CalendarKind::Hijri, h);
        assert_eq!(from_gregorian(CalendarKind::Hijri, g), h);
    }
    for g in [Date::new(2026, 9, 7), Date::new(2024, 2, 29), Date::new(1900, 3, 1)] {
        let h = from_gregorian(CalendarKind::Hijri, g);
        assert_eq!(to_gregorian(CalendarKind::Hijri, h), g);
    }
    // Before Hijri year 0 the search lands on no real date.
    let h = from_gregorian(CalendarKind::Hijri, to_gregorian(CalendarKind::Hijri, Date::new(-1, 1, 1)));
    assert_ne!(h, Date::new(-1, 1, 1));
}

#[test]
fn switching_main_calendar_there_and_back_keeps_the_day() {
    for (kind, y, m, d) in [
        (CalendarKind::Jalali, 1405, 12, 29),
        (CalendarKind::Jalali, 1403, 12, 30),
        (CalendarKind::Hijri, 1448, 3, 25),
        (CalendarKind::Hijri, 1447, 12, 30),
    ] {
        let mut app = state(kind, y, m, d);
        app.set_main_calendar(CalendarKind::Gregorian);
        app.set_main_calendar(kind);
        assert_eq!((app.year, app.month, app.selected_day), (y, m, Some(d)));
    }
}

#[test]
fn a_day_forward_and_back_returns() {
    for (kind, date) in [
        (CalendarKind::Gregorian, Date::new(2024, 12, 31)),
        (CalendarKind::Gregorian, Date::new(2024, 2, 28)),
        (CalendarKind::Jalali, Date::new(1403, 12, 30)),
        (CalendarKind::Jalali, Date::new(1405, 6, 31)),
    ] {
        assert_eq!(add_day(kind, add_day(kind, date, 1), -1), date);
    }
    let mut app = state(CalendarKind::Jalali, 1405, 6, 31);
    app.step_day(1);
    app.step_day(-1);
    assert_eq!((app.year, app.month, app.selected_day), (1405, 6, Some(31)));
    let mut app = state(CalendarKind::Gregorian, 2026, 1, 1);
    app.step_day(-1);
    assert_eq!((app.year, app.month, app.selected_day), (2025, 12, Some(31)));
    app.step_day(1);
    assert_eq!((app.year, app.month, app.selected_day), (2026, 1, Some(1)));
}

#[test]
fn tab_and_shift_tab_return_the_focus() {
    for current in 0..16 {
        assert_eq!(next_focus(next_focus(current, false, 16), true, 16), current);
        assert_eq!(next_focus(next_focus(current, true, 16), false, 16), current);
    }
}

#[test]
fn choosing_the_shown_button_keeps_the_settings_and_switches_flip() {
    let mut app = state(CalendarKind::Jalali, 1405, 6, 16);
    app.settings.tray_day_icon = true;
    app.settings.ui_scale = 110;
    for (page, action) in [
        (0, Action::Theme),
        (0, Action::Scale),
        (1, Action::Direction),
        (2, Action::TrayContent),
        (2, Action::Digits),
        (2, Action::TrayText),
        (2, Action::TrayBackground),
    ] {
        let before = app.settings;
        let shown = rows(&app.settings, page, InstallationState::NotInstalled)
            .into_iter()
            .find(|r| r.action == action)
            .unwrap()
            .selected
            .unwrap();
        assert!(apply_setting(&mut app, action, shown, false));
        assert_eq!(app.settings.to_text(), before.to_text());
    }
    let shown_before = rows(&app.settings, 1, InstallationState::NotInstalled)[6].selected;
    assert!(apply_setting(&mut app, Action::Subtitles, 0, false));
    let shown_after = rows(&app.settings, 1, InstallationState::NotInstalled)[6].selected;
    assert_eq!(shown_before, Some(1));
    assert_eq!(shown_after, Some(0));
}

#[test]
fn switching_from_gregorian_there_and_back_keeps_the_day() {
    for target in [CalendarKind::Jalali, CalendarKind::Hijri] {
        for (y, m, d) in [(2026, 9, 7), (2025, 3, 20), (2024, 2, 29)] {
            let mut app = state(CalendarKind::Gregorian, y, m, d);
            app.set_main_calendar(target);
            app.set_main_calendar(CalendarKind::Gregorian);
            assert_eq!((app.year, app.month, app.selected_day), (y, m, Some(d)));
        }
    }
}

#[test]
fn day_steps_add_up_and_undo_each_other() {
    for kind in [CalendarKind::Jalali, CalendarKind::Gregorian, CalendarKind::Hijri] {
        let d = Date::new(1400, 7, 15);
        for (a, b) in [(10, 25), (400, -1000), (-36500, 36500), (36500, 36500), (0, 0)] {
            assert_eq!(add_day(kind, add_day(kind, d, a), b), add_day(kind, d, a + b));
            assert_eq!(add_day(kind, add_day(kind, d, a), -a), d);
        }
        assert_eq!(add_day(kind, d, 0), d);
    }
}

#[test]
fn month_ends_lead_to_the_next_month() {
    for (kind, y, m, next) in [
        (CalendarKind::Jalali, 1403, 12, Date::new(1404, 1, 1)),
        (CalendarKind::Jalali, 1404, 12, Date::new(1405, 1, 1)),
        (CalendarKind::Jalali, 1405, 6, Date::new(1405, 7, 1)),
        (CalendarKind::Gregorian, 2024, 2, Date::new(2024, 3, 1)),
        (CalendarKind::Gregorian, 2025, 12, Date::new(2026, 1, 1)),
        (CalendarKind::Hijri, 1447, 12, Date::new(1448, 1, 1)),
        (CalendarKind::Hijri, 1448, 3, Date::new(1448, 4, 1)),
    ] {
        let n = days_in_month(kind, y, m);
        let last = Date::new(y, m, n);
        assert_eq!(add_day(kind, Date::new(y, m, 1), n as i32 - 1), last);
        assert_eq!(add_day(kind, last, 1), next);
    }
    // Esfand has 30 days in the leap year 1403 and 29 in 1404.
    assert_eq!(days_in_month(CalendarKind::Jalali, 1403, 12), 30);
    assert_eq!(days_in_month(CalendarKind::Jalali, 1404, 12), 29);
}

#[test]
fn converting_there_and_back_and_within_a_calendar() {
    let kinds = [CalendarKind::Jalali, CalendarKind::Gregorian, CalendarKind::Hijri];
    for from in kinds {
        for to in kinds {
            for d in [Date::new(1400, 1, 1), Date::new(1450, 12, 29), Date::new(1999, 5, 30)] {
                assert_eq!(convert(convert(d, from, to), to, from), d);
            }
        }
        let odd = Date::new(7, 40, 99);
        assert_eq!(convert(odd, from, from), odd);
    }
    let odd = Date::new(-3, 0, 0);
    assert_eq!(to_gregorian(CalendarKind::Gregorian, odd), odd);
    assert_eq!(from_gregorian(CalendarKind::Gregorian, odd), odd);
}

#[test]
fn weekdays_follow_each_other() {
    assert_eq!(weekday_saturday(Date::new(2026, 3, 21)), 0);
    assert_eq!(weekday_saturday(Date::new(2026, 8, 9)), 1);
    let mut g = Date::new(2024, 2, 27);
    for _ in 0..400 {
        let next = add_day(CalendarKind::Gregorian, g, 1);
        assert_eq!(weekday_saturday(next), (weekday_saturday(g) + 1) % 7);
        g = next;
    }
}
