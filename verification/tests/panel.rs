use gahyar::calendar::{CalendarKind, Date};
use gahyar::choices::{apply_setting, autostart_request, restore_settings, starts_download};
use gahyar::clicks::InstallationState;
use gahyar::events::EventStore;
use gahyar::layout::Rect;
use gahyar::panel::{button, choice, click, focus_regions, next_focus, rows, toggle, Action, PanelTarget};
use gahyar::settings::{Settings, Theme};
use gahyar::view::{AppState, ViewMode};

fn fixture() -> AppState {
    AppState {
        settings: Settings::default(),
        events: EventStore::unreadable("none".to_string()),
        today_gregorian: Date::new(2026, 9, 7),
        year: 1405,
        month: 6,
        selected_day: Some(16),
        view: ViewMode::Calendar,
        event_scroll: 0,
        hovered_cell: None,
    }
}

#[test]
fn row_builders() {
    let r = choice("t", "d", &["a", "b"], 1, Action::Theme);
    assert_eq!(r.options, vec!["a".to_string(), "b".to_string()]);
    assert_eq!(r.selected, Some(1));
    assert!(r.enabled && !r.toggle);
    let r = toggle("t", "d", true, Action::Events);
    assert!(r.toggle);
    assert_eq!(r.selected, Some(1));
    assert_eq!(r.options, vec![String::new()]);
    let r = button("t", "d", "go", Action::Reset);
    assert_eq!(r.selected, None);
    assert_eq!(r.options, vec!["go".to_string()]);
}

#[test]
fn appearance_page_shows_colours_and_scale() {
    let mut s = Settings::default();
    let page = rows(&s, 0, InstallationState::NotInstalled);
    assert_eq!(page.len(), 5);
    assert_eq!(page[0].selected, Some(0));
    assert_eq!(page[0].detail, "رنگ‌های پیش‌فرض پوسته");
    assert_eq!(page[1].options, vec!["#1E1F21".to_string()]);
    assert_eq!(page[1].swatch, Some([30, 31, 33]));
    assert_eq!(page[3].selected, Some(2));
    s.accent = Some([1, 2, 3]);
    s.ui_scale = 125;
    let page = rows(&s, 0, InstallationState::NotInstalled);
    assert_eq!(page[0].detail, "رنگ‌های سفارشی فعال‌اند");
    assert_eq!(page[2].options, vec!["#010203".to_string()]);
    assert_eq!(page[3].selected, Some(4));
}

#[test]
fn main_calendar_switch_is_locked_on() {
    let s = Settings { show_jalali: false, ..Settings::default() };
    let page = rows(&s, 1, InstallationState::NotInstalled);
    assert_eq!(page.len(), 8);
    assert_eq!(page[3].action, Action::Jalali);
    assert!(!page[3].enabled);
    assert_eq!(page[3].selected, Some(1));
    assert_eq!(page[3].detail, "تقویم اصلی؛ همیشه نمایش داده می‌شود");
    assert!(page[4].enabled);
}

#[test]
fn tray_options_need_the_day_icon_and_install_follows_state() {
    let s = Settings::default();
    let page = rows(&s, 2, InstallationState::NotInstalled);
    assert!(page[0].enabled && !page[1].enabled && !page[2].enabled && !page[3].enabled);
    let page = rows(&s, 4, InstallationState::NotInstalled);
    assert_eq!(page[0].options, vec!["نصب برنامه".to_string()]);
    assert!(page[0].enabled && !page[1].enabled);
    let page = rows(&s, 4, InstallationState::InstalledCurrent);
    assert_eq!(page[0].options, vec!["نصب شده".to_string()]);
    assert!(!page[0].enabled && page[1].enabled);
}

#[test]
fn focus_order_and_clicks() {
    let s = Settings::default();
    let regions = focus_regions(&s, 0, InstallationState::NotInstalled);
    assert_eq!(regions.len(), 6 + 2 + 1 + 1 + 5 + 1);
    assert_eq!(regions[0], Rect { left: 20, top: 20, right: 52, bottom: 52 });
    assert_eq!(click(&s, 0, InstallationState::NotInstalled, 30, 30, 100), (0, PanelTarget::Close));
    assert_eq!(click(&s, 0, InstallationState::NotInstalled, 600, 160, 100), (2, PanelTarget::Page(1)));
    // The second (left) button of the theme row.
    assert_eq!(
        click(&s, 0, InstallationState::NotInstalled, 100, 130, 100),
        (7, PanelTarget::Control(Action::Theme, 1))
    );
    assert_eq!(click(&s, 0, InstallationState::NotInstalled, 5, 5, 100), (-1, PanelTarget::Nothing));
    assert_eq!(next_focus(-1, true, 16), 15);
    assert_eq!(next_focus(15, false, 16), 0);
    assert_eq!(next_focus(0, true, 16), 15);
}

#[test]
fn choosing_buttons_changes_the_settings() {
    let mut app = fixture();
    assert!(apply_setting(&mut app, Action::Scale, 4, false));
    assert_eq!(app.settings.ui_scale, 125);
    assert!(apply_setting(&mut app, Action::Theme, 1, false));
    assert_eq!(app.settings.theme, Theme::Light);
    assert_eq!(app.settings.primary, Some([231, 233, 236]));
    assert!(apply_setting(&mut app, Action::Calendar, 1, false));
    assert_eq!((app.settings.main_calendar, app.year, app.month), (CalendarKind::Gregorian, 2026, 9));
    assert_eq!(autostart_request(&app.settings, Action::Autostart), Some(true));
    assert!(!apply_setting(&mut app, Action::Autostart, 0, false));
    assert!(!app.settings.autostart);
    assert!(apply_setting(&mut app, Action::Autostart, 0, true));
    assert!(app.settings.autostart);
    let previous = Settings::default();
    assert_eq!(restore_settings(&mut app, previous), Some(false));
    assert_eq!(app.settings.main_calendar, CalendarKind::Jalali);
    assert_eq!((app.year, app.month), (1405, 6));
    assert!(starts_download(&app.settings, Action::Reset, true));
    assert!(!starts_download(&app.settings, Action::Theme, true));
    app.selected_day = None;
    assert!(apply_setting(&mut app, Action::Layout, 1, false));
    assert!(app.settings.compact_day);
    assert_eq!(app.selected_day, Some(16));
}
