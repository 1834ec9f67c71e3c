use gahyar::calendar::Date;
use gahyar::events::{CalendarEvent, EventStore};
use gahyar::input::{key_down, pointer_left, wheel, KeyOutcome};
use gahyar::settings::Settings;
use gahyar::view::{AppState, ViewMode};

fn event(day: u32, title: &str) -> CalendarEvent {
    CalendarEvent {
        jalali_year: 1405,
        jalali_month: 6,
        jalali_day: day,
        title: title.to_string(),
        description: String::new(),
        category: String::new(),
        official_holiday: false,
    }
}

fn fixture() -> AppState {
    let events = vec![
        event(3, "a"),
        event(5, "b"),
        event(9, "c"),
        event(12, "d"),
        event(20, "e"),
    ];
    AppState {
        settings: Settings::default(),
        events: EventStore::from_parts(1405, 0, "test".to_string(), events, Vec::new()),
        today_gregorian: Date::new(2026, 9, 7),
        year: 1405,
        month: 6,
        selected_day: None,
        view: ViewMode::Calendar,
        event_scroll: 0,
        hovered_cell: Some(4),
    }
}

#[test]
fn escape_leaves_settings_then_hides() {
    let mut app = fixture();
    app.view = ViewMode::Settings;
    assert_eq!(key_down(&mut app, 0x1B), KeyOutcome::Resize);
    assert_eq!(app.view, ViewMode::Calendar);
    assert_eq!(key_down(&mut app, 0x1B), KeyOutcome::Hide);
    assert_eq!(app.view, ViewMode::Calendar);
}

#[test]
fn f5_reloads_and_other_keys_do_nothing() {
    let mut app = fixture();
    assert_eq!(key_down(&mut app, 0x74), KeyOutcome::Reload);
    assert_eq!(key_down(&mut app, 0x41), KeyOutcome::Nothing);
    assert_eq!((app.year, app.month), (1405, 6));
}

#[test]
fn arrow_keys_follow_the_grid_direction() {
    let mut app = fixture();
    // Right to left: the left arrow goes to the next month.
    assert_eq!(key_down(&mut app, 0x25), KeyOutcome::Repaint);
    assert_eq!((app.year, app.month, app.selected_day), (1405, 7, None));
    assert_eq!(key_down(&mut app, 0x27), KeyOutcome::Repaint);
    assert_eq!((app.year, app.month), (1405, 6));
    app.settings.calendar_rtl = false;
    key_down(&mut app, 0x25);
    assert_eq!((app.year, app.month), (1405, 5));
    // Across the year.
    app.month = 12;
    key_down(&mut app, 0x27);
    assert_eq!((app.year, app.month), (1406, 1));
}

#[test]
fn arrow_keys_move_the_day_in_the_one_day_view() {
    let mut app = fixture();
    app.settings.compact_day = true;
    app.selected_day = Some(31);
    key_down(&mut app, 0x27);
    assert_eq!((app.year, app.month, app.selected_day), (1405, 7, Some(1)));
    key_down(&mut app, 0x25);
    assert_eq!((app.year, app.month, app.selected_day), (1405, 6, Some(31)));
}

#[test]
fn arrow_keys_do_nothing_in_the_settings_view() {
    let mut app = fixture();
    app.view = ViewMode::Settings;
    assert_eq!(key_down(&mut app, 0x25), KeyOutcome::Repaint);
    assert_eq!((app.year, app.month), (1405, 6));
}

#[test]
fn wheel_scrolls_within_the_list() {
    let mut app = fixture();
    // Five occasions, three shown: the list scrolls by at most two.
    wheel(&mut app, -120);
    assert_eq!(app.event_scroll, 1);
    wheel(&mut app, -120);
    wheel(&mut app, -120);
    assert_eq!(app.event_scroll, 2);
    wheel(&mut app, 120);
    assert_eq!(app.event_scroll, 1);
    wheel(&mut app, 120);
    wheel(&mut app, 120);
    assert_eq!(app.event_scroll, 0);
    app.settings.show_events = false;
    wheel(&mut app, -120);
    assert_eq!(app.event_scroll, 0);
}

#[test]
fn leaving_the_window_clears_the_hover() {
    let mut app = fixture();
    assert!(pointer_left(&mut app));
    assert_eq!(app.hovered_cell, None);
    assert!(!pointer_left(&mut app));
}
