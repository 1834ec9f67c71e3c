use gahyar::calendar::Date;
use gahyar::clicks::InstallationState;
use gahyar::events::{CalendarEvent, EventStore};
use gahyar::grid::grid_cell;
use gahyar::layout::{rgb, Palette};
use gahyar::paint::{
    about_hit, accept_colors, button_colors, cell_style, confirm_hit, confirm_key,
    install_buttons, message_bottom, occasion_colors, row_switch, scale_text, settings_switches,
    switch_style, today_button_shown, tray_icon_day, AboutHit,
};
use gahyar::panel::rows;
use gahyar::settings::{Settings, Theme};
use gahyar::view::{AppState, ViewMode};

fn fixture() -> AppState {
    let events = vec![
        CalendarEvent {
            jalali_year: 1405,
            jalali_month: 6,
            jalali_day: 21,
            title: "holiday".to_string(),
            description: String::new(),
            category: String::new(),
            official_holiday: true,
        },
        CalendarEvent {
            jalali_year: 1405,
            jalali_month: 6,
            jalali_day: 10,
            title: "occasion".to_string(),
            description: String::new(),
            category: String::new(),
            official_holiday: false,
        },
    ];
    AppState {
        settings: Settings::default(),
        events: EventStore::from_parts(
            1405,
            0,
            "test".to_string(),
            events,
            vec!["1405-06-21".to_string()],
        ),
        today_gregorian: Date::new(2026, 9, 7),
        year: 1405,
        month: 6,
        selected_day: Some(16),
        view: ViewMode::Calendar,
        event_scroll: 0,
        hovered_cell: None,
    }
}

#[test]
fn grid_cell_colours() {
    let app = fixture();
    let p = Palette::from_theme(Theme::Dark);
    // Cell 0 is 31 Mordad, a day of the previous month.
    let style = cell_style(&grid_cell(&app, 0), &p);
    assert_eq!(style.day, p.faint);
    assert_eq!(style.secondary, p.faint);
    assert_eq!(style.fill, None);
    // 16 Shahrivar (cell 16) is today and selected.
    let style = cell_style(&grid_cell(&app, 16), &p);
    assert_eq!(style.fill, Some(p.selected));
    assert_eq!(style.outline, Some(p.accent));
    assert_eq!(style.day, p.text);
    assert_eq!(style.dot, None);
    // 21 Shahrivar (cell 21) is a listed holiday with an occasion.
    let style = cell_style(&grid_cell(&app, 21), &p);
    assert_eq!(style.day, p.holiday);
    assert_eq!(style.dot, Some(p.holiday));
    // 10 Shahrivar (cell 10) has an ordinary occasion.
    let style = cell_style(&grid_cell(&app, 10), &p);
    assert_eq!(style.dot, Some(p.event));
    assert_eq!(style.secondary, p.muted);
    // Cell 13 is a Friday.
    let style = cell_style(&grid_cell(&app, 13), &p);
    assert_eq!(style.day, p.holiday);
}

#[test]
fn today_button_only_away_from_today() {
    let mut app = fixture();
    assert!(!today_button_shown(&app));
    app.selected_day = Some(17);
    assert!(today_button_shown(&app));
    app.selected_day = Some(16);
    app.month = 7;
    assert!(today_button_shown(&app));
    app.settings.compact_day = true;
    assert!(!today_button_shown(&app));
}

#[test]
fn occasion_and_switch_colours() {
    let p = Palette::from_theme(Theme::Light);
    assert_eq!(occasion_colors(true, &p), (p.holiday, p.holiday));
    assert_eq!(occasion_colors(false, &p), (p.event, p.text));
    let on = switch_style(true, &p);
    assert_eq!((on.track, on.knob, on.knob_left), (p.accent, p.accent_text, 61));
    let off = switch_style(false, &p);
    assert_eq!((off.track, off.knob, off.knob_left), (p.faint, p.surface, 37));
}

#[test]
fn settings_view_switch_rows() {
    let mut settings = Settings::default();
    settings.show_hijri = true;
    let rows = settings_switches(&settings);
    assert_eq!(rows.len(), 12);
    assert_eq!(rows[0].0, 218);
    assert_eq!(rows[3], (350, "نمایش تاریخ قمری", true));
    assert_eq!(rows[11].1, "اجرا همراه با ویندوز");
    assert_eq!(scale_text(100), "٪۱۰۰");
}

#[test]
fn install_button_looks() {
    let p = Palette::from_theme(Theme::Dark);
    let b = install_buttons(InstallationState::NotInstalled, &p);
    assert_eq!(b.label, "نصب در Program Files");
    assert_eq!((b.fill, b.text), (p.accent, p.accent_text));
    assert_eq!((b.remove_fill, b.remove_text), (p.surface_alt, p.faint));
    let b = install_buttons(InstallationState::InstalledCurrent, &p);
    assert_eq!(b.label, "نصب شده");
    assert_eq!((b.fill, b.text), (p.surface_alt, p.muted));
    assert_eq!((b.remove_fill, b.remove_text), (p.holiday, p.accent_text));
    let b = install_buttons(InstallationState::UpdateAvailable, &p);
    assert_eq!(b.label, "بروزرسانی نسخه نصب‌شده");
    assert_eq!(b.fill, p.accent);
}

#[test]
fn settings_window_button_colours() {
    let p = Palette::from_theme(Theme::Dark);
    let settings = Settings::default();
    let page = rows(&settings, 0, InstallationState::NotInstalled);
    let theme_row = &page[0];
    let chosen = theme_row.selected.unwrap();
    assert_eq!(button_colors(theme_row, chosen, &p), (p.accent, p.accent_text));
    assert_eq!(button_colors(theme_row, chosen + 1, &p).0, p.surface_alt);
    let switches = rows(&settings, 1, InstallationState::NotInstalled);
    assert!(switches.iter().any(|r| r.toggle));
    for row in switches.iter().filter(|r| r.toggle) {
        let (track, knob, on) = row_switch(row, &p);
        assert_eq!(on, row.selected == Some(1));
        if on && row.enabled {
            assert_eq!((track, knob), (p.accent, p.accent_text));
        } else {
            assert_eq!((track, knob), (p.surface_alt, p.muted));
        }
    }
}

#[test]
fn about_and_confirmation_boxes() {
    assert_eq!(about_hit(100, 60), Some(AboutHit::Website));
    assert_eq!(about_hit(100, 100), Some(AboutHit::Github));
    assert_eq!(about_hit(100, 200), Some(AboutHit::Update));
    assert_eq!(about_hit(200, 250), Some(AboutHit::Close));
    assert_eq!(about_hit(10, 10), None);
    assert_eq!(confirm_hit(300, 300), Some(true));
    assert_eq!(confirm_hit(100, 300), Some(false));
    assert_eq!(confirm_hit(215, 300), None);
    assert_eq!(confirm_key(0x0D), Some(true));
    assert_eq!(confirm_key(0x1B), Some(false));
    assert_eq!(confirm_key(0x20), None);
    let p = Palette::from_theme(Theme::Light);
    assert_eq!(accept_colors(true, &p), (p.holiday, rgb(255, 255, 255)));
    assert_eq!(accept_colors(false, &p), (p.accent, p.accent_text));
    assert_eq!(message_bottom(true), 188);
    assert_eq!(message_bottom(false), 276);
}

#[test]
fn tray_icon_shows_todays_jalali_day() {
    let mut app = fixture();
    app.settings.tray_day_icon = true;
    assert_eq!(tray_icon_day(&app), Some(16));
    app.settings.main_calendar = gahyar::calendar::CalendarKind::Gregorian;
    assert_eq!(tray_icon_day(&app), Some(16));
    app.settings.tray_day_icon = false;
    assert_eq!(tray_icon_day(&app), None);
}
