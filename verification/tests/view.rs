use gahyar::calendar::{CalendarKind, Date};
use gahyar::events::{CalendarEvent, EventStore};
use gahyar::settings::Settings;
use gahyar::view::{
    adjacent_date, clipboard_date, event_items_for_view, events_top, main_date_heading,
    move_calendar_day, secondary_dates, secondary_day_text, secondary_ranges, tray_tooltip,
    AppState, ViewMode,
};

fn event(year: i32, month: u32, day: u32, title: &str) -> CalendarEvent {
    CalendarEvent {
        jalali_year: year,
        jalali_month: month,
        jalali_day: day,
        title: title.to_string(),
        description: String::new(),
        category: String::new(),
        official_holiday: false,
    }
}

fn fixture() -> AppState {
    let events = vec![
        event(1405, 6, 16, "first"),
        event(1405, 6, 20, "second"),
        event(1405, 6, 16, "third"),
        event(1405, 7, 1, "later"),
    ];
    AppState {
        settings: Settings::default(),
        events: EventStore::from_parts(1405, 0, "test".to_string(), events, Vec::new()),
        today_gregorian: Date::new(2026, 9, 7),
        year: 1405,
        month: 6,
        selected_day: Some(16),
        view: ViewMode::Calendar,
        event_scroll: 0,
        hovered_cell: None,
    }
}

#[test]
fn window_height_follows_view_and_banner() {
    let mut app = fixture();
    assert_eq!(app.base_height(false), 517 + 136 + 30);
    app.settings.compact_day = true;
    assert_eq!(app.base_height(false), 126 + 136 + 30);
    app.settings.show_events = false;
    assert_eq!(app.base_height(false), 126 + 30);
    app.settings.auto_update = false;
    assert_eq!(app.base_height(true), 126 + 30 + 42);
    app.view = ViewMode::Settings;
    assert_eq!(app.base_height(false), 878 + 30);
    assert_eq!(events_top(&app), 116);
    app.settings.compact_day = false;
    assert_eq!(events_top(&app), 503);
}

#[test]
fn today_refresh_reports_a_new_day() {
    let mut app = fixture();
    assert_eq!(app.today_main(), Date::new(1405, 6, 16));
    assert!(!app.refresh_today(Date::new(2026, 9, 7)));
    assert!(app.refresh_today(Date::new(2026, 9, 8)));
    assert_eq!(app.today_gregorian, Date::new(2026, 9, 8));
}

#[test]
fn switching_main_calendar_keeps_the_selected_day() {
    let mut app = fixture();
    app.event_scroll = 3;
    app.set_main_calendar(CalendarKind::Gregorian);
    assert_eq!((app.year, app.month, app.selected_day), (2026, 9, Some(7)));
    assert_eq!(app.event_scroll, 0);
    app.set_main_calendar(CalendarKind::Jalali);
    assert_eq!((app.year, app.month, app.selected_day), (1405, 6, Some(16)));
    app.selected_day = None;
    app.set_main_calendar(CalendarKind::Gregorian);
    assert_eq!((app.year, app.month, app.selected_day), (2026, 8, Some(23)));
}

#[test]
fn daily_steps_cross_month_edges() {
    let mut app = fixture();
    app.selected_day = Some(31);
    app.hovered_cell = Some(4);
    app.step_day(1);
    assert_eq!((app.year, app.month, app.selected_day), (1405, 7, Some(1)));
    assert_eq!(app.hovered_cell, None);
    app.step_day(-1);
    assert_eq!((app.year, app.month, app.selected_day), (1405, 6, Some(31)));
    app.selected_day = None;
    app.month = 5;
    app.ensure_daily_selection();
    assert_eq!(app.selected_day, Some(1));
    app.month = 6;
    app.selected_day = None;
    app.ensure_daily_selection();
    assert_eq!(app.selected_day, Some(16));
}

#[test]
fn moving_by_days_uses_the_current_day() {
    let mut app = fixture();
    app.selected_day = None;
    move_calendar_day(&mut app, 20);
    assert_eq!((app.year, app.month, app.selected_day), (1405, 7, Some(5)));
    move_calendar_day(&mut app, -20);
    assert_eq!((app.year, app.month, app.selected_day), (1405, 6, Some(16)));
}

#[test]
fn grid_cells_map_to_neighbouring_months() {
    // 1 September 2026 is a Tuesday: the fourth cell of a Saturday-first week.
    assert_eq!(
        adjacent_date(CalendarKind::Gregorian, 2026, 9, 0),
        (Date::new(2026, 8, 29), false)
    );
    assert_eq!(
        adjacent_date(CalendarKind::Gregorian, 2026, 9, 3),
        (Date::new(2026, 9, 1), true)
    );
    assert_eq!(
        adjacent_date(CalendarKind::Gregorian, 2026, 9, 32),
        (Date::new(2026, 9, 30), true)
    );
    assert_eq!(
        adjacent_date(CalendarKind::Gregorian, 2026, 9, 33),
        (Date::new(2026, 10, 1), false)
    );
    assert_eq!(
        adjacent_date(CalendarKind::Gregorian, 2026, 1, 0),
        (Date::new(2025, 12, 27), false)
    );
}

#[test]
fn day_numbers_and_copied_dates() {
    assert_eq!(secondary_day_text(CalendarKind::Jalali, 12), "۱۲");
    assert_eq!(secondary_day_text(CalendarKind::Hijri, 5), "۵");
    assert_eq!(secondary_day_text(CalendarKind::Gregorian, 12), "12");
    assert_eq!(
        clipboard_date(CalendarKind::Jalali, Date::new(1405, 6, 16)),
        "۱۴۰۵/۰۶/۱۶"
    );
    assert_eq!(
        clipboard_date(CalendarKind::Gregorian, Date::new(2026, 9, 7)),
        "2026/09/07"
    );
}

#[test]
fn heading_and_tooltip_name_the_day() {
    let mut app = fixture();
    assert_eq!(main_date_heading(&app), "دوشنبه، ۱۶ شهریور ۱۴۰۵");
    assert_eq!(tray_tooltip(&app), "گاه‌یار — دوشنبه، ۱۶ شهریور ۱۴۰۵ | 2026/09/07");
    app.settings.show_tray_date = false;
    assert_eq!(tray_tooltip(&app), "گاه‌یار");
    app.set_main_calendar(CalendarKind::Gregorian);
    assert_eq!(main_date_heading(&app), "دوشنبه، 7 September 2026");
}

#[test]
fn secondary_dates_and_ranges_follow_the_switches() {
    let mut app = fixture();
    let dates = secondary_dates(&app, Date::new(1405, 6, 16));
    assert_eq!(
        dates,
        vec![
            (CalendarKind::Gregorian, Date::new(2026, 9, 7)),
            (CalendarKind::Hijri, Date::new(1448, 3, 25)),
        ]
    );
    let ranges = secondary_ranges(&app);
    assert_eq!(ranges.len(), 2);
    assert_eq!(ranges[0], "August – September 2026");
    app.settings.show_gregorian = false;
    assert_eq!(secondary_dates(&app, Date::new(1405, 6, 16)).len(), 1);
    assert_eq!(secondary_ranges(&app).len(), 1);
    app.settings.show_subtitles = false;
    assert!(secondary_ranges(&app).is_empty());
}

#[test]
fn occasions_of_the_selected_day_or_the_month() {
    let mut app = fixture();
    let items = event_items_for_view(&app);
    let titles: Vec<(u32, &str)> = items.iter().map(|(d, e)| (*d, e.title.as_str())).collect();
    assert_eq!(titles, vec![(16, "first"), (16, "third")]);
    app.selected_day = None;
    let items = event_items_for_view(&app);
    let titles: Vec<(u32, &str)> = items.iter().map(|(d, e)| (*d, e.title.as_str())).collect();
    assert_eq!(titles, vec![(16, "first"), (16, "third"), (20, "second")]);
}
