use gahyar::calendar::{CalendarKind, Date};
use gahyar::events::{CalendarEvent, EventStore};
use gahyar::grid::{
    cell_at, copy_text_at, day_tooltip, empty_events_message, events_title, first_visible,
    grid_cell, scroll_thumb, tray_day_text, update_day_hover,
};
use gahyar::layout::Rect;
use gahyar::settings::Settings;
use gahyar::view::{AppState, ViewMode};

fn event(day: u32, title: &str, holiday: bool) -> CalendarEvent {
    CalendarEvent {
        jalali_year: 1405,
        jalali_month: 6,
        jalali_day: day,
        title: title.to_string(),
        description: String::new(),
        category: String::new(),
        official_holiday: holiday,
    }
}

fn fixture() -> AppState {
    let events = vec![
        event(16, "a", false),
        event(16, "b", false),
        event(16, "c", false),
        event(16, "d", false),
        event(21, "holiday", true),
    ];
    AppState {
        settings: Settings::default(),
        events: EventStore::from_parts(
            1405,
            0,
            "test".to_string(),
            events,
            vec!["1405-06-21".to_string()],
        ),
        today_gregorian: Date::new(2026, 9, 7),
        year: 1405,
        month: 6,
        selected_day: Some(16),
        view: ViewMode::Calendar,
        event_scroll: 0,
        hovered_cell: None,
    }
}

#[test]
fn cells_of_the_month_grid() {
    let app = fixture();
    // 1 Shahrivar 1405 is a Sunday: the second cell of the first row.
    let first = grid_cell(&app, 1);
    assert_eq!(first.date, Date::new(1405, 6, 1));
    assert!(first.in_current_month);
    assert_eq!(first.gregorian, Date::new(2026, 8, 23));
    let previous = grid_cell(&app, 0);
    assert_eq!(previous.date, Date::new(1405, 5, 31));
    assert!(!previous.in_current_month);
    let today = grid_cell(&app, 16);
    assert_eq!(today.date, Date::new(1405, 6, 16));
    assert!(today.is_today && today.is_selected && today.has_events && !today.official_holiday);
    assert_eq!(
        today.secondary,
        vec![
            (CalendarKind::Gregorian, Date::new(2026, 9, 7)),
            (CalendarKind::Hijri, Date::new(1448, 3, 25)),
        ]
    );
    let holiday = grid_cell(&app, 21);
    assert!(holiday.official_holiday && holiday.has_events && !holiday.is_today);
    assert!(grid_cell(&app, 6).is_friday);
}

#[test]
fn pointer_cells_hover_and_copy() {
    let mut app = fixture();
    assert_eq!(cell_at(true, 18 + 6 * 56 + 3, 159 + 54 * 2 + 3), Some(14));
    assert_eq!(cell_at(false, 18 + 6 * 56 + 3, 159 + 3), Some(6));
    assert_eq!(cell_at(true, 5, 200), None);
    // Cell 16: third row, third column from the right.
    let (x, y) = (18 + 4 * 56 + 10, 159 + 2 * 54 + 10);
    assert!(update_day_hover(&mut app, x, y));
    assert_eq!(app.hovered_cell, Some(16));
    assert!(!update_day_hover(&mut app, x, y));
    assert!(update_day_hover(&mut app, 5, 5));
    assert_eq!(app.hovered_cell, None);
    assert_eq!(copy_text_at(&app, x, y), Some("۱۴۰۵/۰۶/۱۶".to_string()));
    assert_eq!(copy_text_at(&app, 5, 5), None);
}

#[test]
fn tooltip_lists_three_occasions() {
    let mut app = fixture();
    app.hovered_cell = Some(16);
    let (rect, text) = day_tooltip(&app).unwrap();
    assert_eq!(text, "• a\n• b\n• c");
    // Row 2 sits in the upper half: the tooltip goes below the cell.
    assert_eq!(rect, Rect { left: 127, top: 159 + 3 * 54 + 4, right: 413, bottom: 159 + 3 * 54 + 4 + 100 });
    app.hovered_cell = Some(2);
    assert!(day_tooltip(&app).is_none());
}

#[test]
fn occasions_list_title_message_and_scrollbar() {
    let mut app = fixture();
    assert_eq!(events_title(&app), "مناسبت‌های روز ۱۶");
    app.selected_day = None;
    assert_eq!(events_title(&app), "مناسبت‌های این ماه");
    assert_eq!(empty_events_message(&app), "برای این بازه مناسبتی ثبت نشده است.");
    app.year = 1406;
    assert_eq!(empty_events_message(&app), "فایل رویداد پیوست فقط اطلاعات سال ۱۴۰۵ را دارد.");
    assert_eq!(first_visible(5, 10), 2);
    assert_eq!(first_visible(2, 1), 0);
    assert_eq!(scroll_thumb(&app, 5, 1), (16, 46));
    assert_eq!(tray_day_text(16, true), "16");
    assert_eq!(tray_day_text(16, false), "۱۶");
}
