use gahyar::calendar::{CalendarKind, Date};
use gahyar::clicks::{
    calendar_hit, confirm_autostart, handle_main_click, install_allowed, installation_state_of,
    settings_hit, version_is_newer, CalendarHit, InstallationState, SettingsHit, UpdateBanner,
};
use gahyar::events::EventStore;
use gahyar::settings::{Settings, Theme};
use gahyar::view::{AppState, ViewMode};

fn fixture() -> AppState {
    AppState {
        settings: Settings::default(),
        events: EventStore::unreadable("none".to_string()),
        today_gregorian: Date::new(2026, 9, 7),
        year: 1405,
        month: 6,
        selected_day: Some(16),
        view: ViewMode::Calendar,
        event_scroll: 0,
        hovered_cell: None,
    }
}

#[test]
fn footer_and_banner_clicks() {
    let mut app = fixture();
    let e = handle_main_click(&mut app, 200, 690, UpdateBanner::Hidden, InstallationState::NotInstalled);
    assert!(e.open_website && !e.open_github);
    let e = handle_main_click(&mut app, 100, 690, UpdateBanner::Hidden, InstallationState::NotInstalled);
    assert!(e.open_github);
    app.settings.auto_update = false;
    let e = handle_main_click(&mut app, 100, 690, UpdateBanner::Available, InstallationState::NotInstalled);
    assert!(e.start_update);
    let e = handle_main_click(&mut app, 100, 690, UpdateBanner::Failed, InstallationState::NotInstalled);
    assert!(e.open_release_page);
}

#[test]
fn header_arrows_move_by_month_against_the_grid_direction() {
    let mut app = fixture();
    let e = handle_main_click(&mut app, 20, 20, UpdateBanner::Hidden, InstallationState::NotInstalled);
    assert!(!e.save);
    assert_eq!((app.year, app.month, app.selected_day), (1405, 7, None));
    handle_main_click(&mut app, 400, 20, UpdateBanner::Hidden, InstallationState::NotInstalled);
    assert_eq!((app.year, app.month), (1405, 6));
    app.settings.calendar_rtl = false;
    handle_main_click(&mut app, 20, 20, UpdateBanner::Hidden, InstallationState::NotInstalled);
    assert_eq!((app.year, app.month), (1405, 5));
    app.settings.compact_day = true;
    app.selected_day = Some(31);
    handle_main_click(&mut app, 400, 20, UpdateBanner::Hidden, InstallationState::NotInstalled);
    assert_eq!((app.year, app.month, app.selected_day), (1405, 6, Some(1)));
}

#[test]
fn grid_cells_select_and_unselect() {
    let mut app = fixture();
    app.settings.main_calendar = CalendarKind::Gregorian;
    app.year = 2026;
    app.month = 9;
    app.selected_day = None;
    // Right-to-left: the fourth cell from the right of the first row.
    assert_eq!(calendar_hit(&app, 18 + 3 * 56 + 5, 160), CalendarHit::Cell(3));
    handle_main_click(&mut app, 18 + 3 * 56 + 5, 160, UpdateBanner::Hidden, InstallationState::NotInstalled);
    assert_eq!(app.selected_day, Some(1));
    handle_main_click(&mut app, 18 + 3 * 56 + 5, 160, UpdateBanner::Hidden, InstallationState::NotInstalled);
    assert_eq!(app.selected_day, None);
    // The first cell belongs to August.
    handle_main_click(&mut app, 18 + 6 * 56 + 5, 160, UpdateBanner::Hidden, InstallationState::NotInstalled);
    assert_eq!((app.year, app.month, app.selected_day), (2026, 8, Some(29)));
}

#[test]
fn today_about_and_settings_buttons() {
    let mut app = fixture();
    app.month = 2;
    app.selected_day = None;
    handle_main_click(&mut app, 200, 90, UpdateBanner::Hidden, InstallationState::NotInstalled);
    assert_eq!((app.year, app.month, app.selected_day), (1405, 6, Some(16)));
    let e = handle_main_click(&mut app, 30, 70, UpdateBanner::Hidden, InstallationState::NotInstalled);
    assert!(e.show_about);
    let e = handle_main_click(&mut app, 400, 70, UpdateBanner::Hidden, InstallationState::NotInstalled);
    assert!(e.resize);
    assert_eq!(app.view, ViewMode::Settings);
}

#[test]
fn settings_rows_change_and_save() {
    let mut app = fixture();
    app.view = ViewMode::Settings;
    assert_eq!(settings_hit(100, 100), SettingsHit::Theme);
    let e = handle_main_click(&mut app, 100, 100, UpdateBanner::Hidden, InstallationState::NotInstalled);
    assert!(e.save);
    assert_eq!(app.settings.theme, Theme::Light);
    handle_main_click(&mut app, 130, 140, UpdateBanner::Hidden, InstallationState::NotInstalled);
    assert_eq!(app.settings.ui_scale, 110);
    handle_main_click(&mut app, 50, 140, UpdateBanner::Hidden, InstallationState::NotInstalled);
    assert_eq!(app.settings.ui_scale, 100);
    handle_main_click(&mut app, 100, 180, UpdateBanner::Hidden, InstallationState::NotInstalled);
    assert_eq!(app.settings.main_calendar, CalendarKind::Gregorian);
    assert_eq!((app.year, app.month, app.selected_day), (2026, 9, Some(7)));
    let e = handle_main_click(&mut app, 100, 720, UpdateBanner::Hidden, InstallationState::NotInstalled);
    assert_eq!(e.toggle_autostart, Some(true));
    assert!(confirm_autostart(&mut app, true, true));
    assert!(app.settings.autostart);
    let e = handle_main_click(&mut app, 100, 820, UpdateBanner::Hidden, InstallationState::NotInstalled);
    assert!(e.disable_autostart && e.save && e.enable_auto_update);
    assert_eq!(app.settings.main_calendar, CalendarKind::Jalali);
    assert_eq!(app.settings.theme, Theme::Dark);
    assert_eq!((app.year, app.month, app.selected_day), (1405, 6, Some(16)));
    let e = handle_main_click(&mut app, 300, 770, UpdateBanner::Hidden, InstallationState::NotInstalled);
    assert!(e.install);
    let e = handle_main_click(&mut app, 300, 770, UpdateBanner::Hidden, InstallationState::UpdateAvailable);
    assert!(e.install);
    // An installed copy that is this one or at least as new is left alone.
    let e = handle_main_click(&mut app, 300, 770, UpdateBanner::Hidden, InstallationState::InstalledCurrent);
    assert!(!e.install);
    let e = handle_main_click(
        &mut app,
        300,
        770,
        UpdateBanner::Hidden,
        InstallationState::InstalledOtherUpToDate,
    );
    assert!(!e.install);
    let e = handle_main_click(&mut app, 100, 770, UpdateBanner::Hidden, InstallationState::NotInstalled);
    assert!(e.uninstall);
    let e = handle_main_click(&mut app, 400, 30, UpdateBanner::Hidden, InstallationState::NotInstalled);
    assert!(e.resize);
    assert_eq!(app.view, ViewMode::Calendar);
}

#[test]
fn installation_decisions() {
    assert!(version_is_newer(Some((1, 2, 0, 0)), Some((1, 1, 9, 9))));
    assert!(!version_is_newer(Some((1, 2, 0, 0)), Some((1, 2, 0, 0))));
    assert!(!version_is_newer(None, Some((1, 0, 0, 0))));
    assert_eq!(installation_state_of(false, true, true, true), InstallationState::NotInstalled);
    assert_eq!(
        installation_state_of(true, false, false, true),
        InstallationState::InstalledOtherUpToDate
    );
    assert_eq!(installation_state_of(true, true, true, true), InstallationState::InstalledCurrent);
    assert_eq!(installation_state_of(true, true, false, true), InstallationState::UpdateAvailable);
    assert!(install_allowed(InstallationState::UpdateAvailable));
    assert!(!install_allowed(InstallationState::InstalledCurrent));
}
