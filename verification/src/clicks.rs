//! What a click in the calendar window hits, and what it does: the state
//! changes are made here, the outside work (dialogs, links, the tray, the
//! registry, the settings file) is handed back as a list of effects.
use vstd::prelude::*;
use crate::calendar::{CalendarKind, month_number, add_month, kind_next};
use crate::layout::{calendar_column, spec_calendar_column, spec_unscaled, unscaled};
use crate::settings::{Settings, Theme, default_settings, smaller_scale, larger_scale};
use crate::view::{
    AppState, ViewMode, BASE_EVENTS_HEIGHT, BASE_FOOTER_HEIGHT, BASE_UPDATE_HEIGHT, CELL_HEIGHT,
    CELL_WIDTH, GRID_LEFT, GRID_TOP, GRID_WIDTH, adjacent_date, adjacent_ok, current_day,
    event_items_for_view, events_top, items_ok, move_calendar_day, move_ok, move_target,
    select_date, spec_adjacent_date, spec_base_height, spec_event_items, spec_events_top,
    spec_set_main_calendar, spec_today_main, switch_ok, today_ok,
};

verus! {

/// What the update banner shows.
#[derive(Clone, Copy, Debug, PartialEq, Eq, Structural)]
pub enum UpdateBanner {
    /// No banner.
    Hidden,
    /// A new version can be downloaded.
    Available,
    /// The last download failed; the release page can be opened.
    Failed,
    /// A banner without an action (a download under way).
    Busy,
}

/// A control of the month view.
#[derive(Clone, Copy, Debug, PartialEq, Eq, Structural)]
pub enum CalendarHit {
    Previous,
    Next,
    About,
    OpenSettings,
    Today,
    /// A grid cell, 0 = first cell of the first row in reading order.
    Cell(i32),
    /// The occasions scrollbar, at height `y`.
    Scroll(i32),
    Nothing,
}

/// A row of the in-window settings view.
#[derive(Clone, Copy, Debug, PartialEq, Eq, Structural)]
pub enum SettingsHit {
    Back,
    Theme,
    /// The scale row, at `x`.
    Scale(i32),
    Calendar,
    Direction,
    Jalali,
    Gregorian,
    Hijri,
    Subtitles,
    Events,
    TrayDate,
    AutoUpdate,
    TrayIcon,
    Digits,
    Compact,
    Autostart,
    Install,
    Uninstall,
    Reset,
    Nothing,
}

/// What a click in the calendar window hits.
#[derive(Clone, Copy, Debug, PartialEq, Eq, Structural)]
pub enum MainHit {
    Website,
    Github,
    Banner,
    Calendar(CalendarHit),
    Settings(SettingsHit),
}

/// The month-view control at (x, y), in unscaled coordinates.
pub open spec fn spec_calendar_hit(s: AppState, x: int, y: int) -> CalendarHit {
    let events_top = spec_events_top(s);
    if 8 <= y <= 48 && x <= 75 {
        CalendarHit::Previous
    } else if 8 <= y <= 48 && x >= 355 {
        CalendarHit::Next
    } else if 54 <= y <= 94 && x <= 62 {
        CalendarHit::About
    } else if 54 <= y <= 94 && x >= 368 {
        CalendarHit::OpenSettings
    } else if !s.settings.compact_day && 78 <= y <= 113 && 160 <= x <= 270 {
        CalendarHit::Today
    } else if !s.settings.compact_day && GRID_TOP <= y < GRID_TOP + CELL_HEIGHT * 6 && GRID_LEFT
        <= x < GRID_LEFT + GRID_WIDTH {
        let column = spec_calendar_column((x - GRID_LEFT) / CELL_WIDTH as int, s.settings.calendar_rtl);
        let row = (y - GRID_TOP) / CELL_HEIGHT as int;
        CalendarHit::Cell((row * 7 + column) as i32)
    } else if s.settings.show_events && 16 <= x <= 36 && events_top + 36 <= y <= events_top
        + BASE_EVENTS_HEIGHT - 8 {
        CalendarHit::Scroll(y as i32)
    } else {
        CalendarHit::Nothing
    }
}

pub fn calendar_hit(app: &AppState, x: i32, y: i32) -> (r: CalendarHit)
    ensures
        r == spec_calendar_hit(*app, x as int, y as int),
{
    let top = events_top(app);
    if y >= 8 && y <= 48 && x <= 75 {
        CalendarHit::Previous
    } else if y >= 8 && y <= 48 && x >= 355 {
        CalendarHit::Next
    } else if y >= 54 && y <= 94 && x <= 62 {
        CalendarHit::About
    } else if y >= 54 && y <= 94 && x >= 368 {
        CalendarHit::OpenSettings
    } else if !app.settings.compact_day && y >= 78 && y <= 113 && x >= 160 && x <= 270 {
        CalendarHit::Today
    } else if !app.settings.compact_day && y >= GRID_TOP && y < GRID_TOP + CELL_HEIGHT * 6 && x
        >= GRID_LEFT && x < GRID_LEFT + GRID_WIDTH {
        let visual_column = (x - GRID_LEFT) / CELL_WIDTH;
        let column = calendar_column(visual_column, app.settings.calendar_rtl);
        let row = (y - GRID_TOP) / CELL_HEIGHT;
        CalendarHit::Cell(row * 7 + column)
    } else if app.settings.show_events && x >= 16 && x <= 36 && y >= top + 36 && y <= top
        + BASE_EVENTS_HEIGHT - 8 {
        CalendarHit::Scroll(y)
    } else {
        CalendarHit::Nothing
    }
}

/// The row of the in-window settings view at (x, y), in unscaled coordinates.
pub open spec fn spec_settings_hit(x: int, y: int) -> SettingsHit {
    if y <= 54 && x >= 350 {
        SettingsHit::Back
    } else if 76 <= y <= 120 {
        SettingsHit::Theme
    } else if 120 <= y <= 164 {
        SettingsHit::Scale(x as i32)
    } else if 164 <= y <= 210 {
        SettingsHit::Calendar
    } else if 216 <= y <= 258 {
        SettingsHit::Direction
    } else if 260 <= y <= 302 {
        SettingsHit::Jalali
    } else if 304 <= y <= 346 {
        SettingsHit::Gregorian
    } else if 348 <= y <= 390 {
        SettingsHit::Hijri
    } else if 392 <= y <= 434 {
        SettingsHit::Subtitles
    } else if 436 <= y <= 478 {
        SettingsHit::Events
    } else if 480 <= y <= 522 {
        SettingsHit::TrayDate
    } else if 524 <= y <= 568 {
        SettingsHit::AutoUpdate
    } else if 569 <= y <= 612 {
        SettingsHit::TrayIcon
    } else if 613 <= y <= 656 {
        SettingsHit::Digits
    } else if 657 <= y <= 700 {
        SettingsHit::Compact
    } else if 701 <= y <= 748 {
        SettingsHit::Autostart
    } else if 750 <= y <= 798 {
        if x >= 215 {
            SettingsHit::Install
        } else {
            SettingsHit::Uninstall
        }
    } else if 799 <= y <= 854 {
        SettingsHit::Reset
    } else {
        SettingsHit::Nothing
    }
}

pub fn settings_hit(x: i32, y: i32) -> (r: SettingsHit)
    ensures
        r == spec_settings_hit(x as int, y as int),
{
    if y <= 54 && x >= 350 {
        SettingsHit::Back
    } else if 76 <= y && y <= 120 {
        SettingsHit::Theme
    } else if 120 <= y && y <= 164 {
        SettingsHit::Scale(x)
    } else if 164 <= y && y <= 210 {
        SettingsHit::Calendar
    } else if 216 <= y && y <= 258 {
        SettingsHit::Direction
    } else if 260 <= y && y <= 302 {
        SettingsHit::Jalali
    } else if 304 <= y && y <= 346 {
        SettingsHit::Gregorian
    } else if 348 <= y && y <= 390 {
        SettingsHit::Hijri
    } else if 392 <= y && y <= 434 {
        SettingsHit::Subtitles
    } else if 436 <= y && y <= 478 {
        SettingsHit::Events
    } else if 480 <= y && y <= 522 {
        SettingsHit::TrayDate
    } else if 524 <= y && y <= 568 {
        SettingsHit::AutoUpdate
    } else if 569 <= y && y <= 612 {
        SettingsHit::TrayIcon
    } else if 613 <= y && y <= 656 {
        SettingsHit::Digits
    } else if 657 <= y && y <= 700 {
        SettingsHit::Compact
    } else if 701 <= y && y <= 748 {
        SettingsHit::Autostart
    } else if 750 <= y && y <= 798 {
        if x >= 215 {
            SettingsHit::Install
        } else {
            SettingsHit::Uninstall
        }
    } else if 799 <= y && y <= 854 {
        SettingsHit::Reset
    } else {
        SettingsHit::Nothing
    }
}

/// What a click at window coordinates (x, y) hits: the footer links, the
/// update banner, or a control of the view on display.
pub open spec fn spec_main_hit(s: AppState, x: int, y: int, banner: UpdateBanner) -> MainHit {
    let scale = s.settings.ui_scale as int;
    let x = spec_unscaled(x, scale) as int;
    let y = spec_unscaled(y, scale) as int;
    let banner_visible = banner != UpdateBanner::Hidden;
    let footer_top = spec_base_height(s, banner_visible) - BASE_FOOTER_HEIGHT;
    if y >= footer_top {
        if x >= 178 {
            MainHit::Website
        } else {
            MainHit::Github
        }
    } else if !s.settings.auto_update && banner_visible && y >= footer_top - BASE_UPDATE_HEIGHT {
        MainHit::Banner
    } else if s.view == ViewMode::Calendar {
        MainHit::Calendar(spec_calendar_hit(s, x, y))
    } else {
        MainHit::Settings(spec_settings_hit(x, y))
    }
}

pub fn main_hit(app: &AppState, x: i32, y: i32, banner: UpdateBanner) -> (r: MainHit)
    requires
        app.settings.ui_scale > 0,
    ensures
        r == spec_main_hit(*app, x as int, y as int, banner),
{
    let x = unscaled(x, app.scale());
    let y = unscaled(y, app.scale());
    let banner_visible = banner != UpdateBanner::Hidden;
    let footer_top = app.base_height(banner_visible) - BASE_FOOTER_HEIGHT;
    if y >= footer_top {
        if x >= 178 {
            MainHit::Website
        } else {
            MainHit::Github
        }
    } else if !app.settings.auto_update && banner_visible && y >= footer_top - BASE_UPDATE_HEIGHT {
        MainHit::Banner
    } else if app.view == ViewMode::Calendar {
        MainHit::Calendar(calendar_hit(app, x, y))
    } else {
        MainHit::Settings(settings_hit(x, y))
    }
}


/// The outside work a click asks for, after its change to the state.
#[derive(Clone, Copy, Debug, PartialEq, Eq, Structural)]
pub struct ClickEffects {
    /// The window's height may have changed.
    pub resize: bool,
    /// The settings changed and are to be written.
    pub save: bool,
    pub show_about: bool,
    pub open_website: bool,
    pub open_github: bool,
    pub refresh_tooltip: bool,
    pub refresh_tray_icon: bool,
    /// Automatic updates were switched on: start a pending download.
    pub enable_auto_update: bool,
    pub install: bool,
    pub uninstall: bool,
    pub start_update: bool,
    pub open_release_page: bool,
    /// Start with Windows (or not); `confirm_autostart` records the outcome.
    pub toggle_autostart: Option<bool>,
    /// Stop starting with Windows, whatever the outcome.
    pub disable_autostart: bool,
}

pub open spec fn no_effects() -> ClickEffects {
    ClickEffects {
        resize: false,
        save: false,
        show_about: false,
        open_website: false,
        open_github: false,
        refresh_tooltip: false,
        refresh_tray_icon: false,
        enable_auto_update: false,
        install: false,
        uninstall: false,
        start_update: false,
        open_release_page: false,
        toggle_autostart: None,
        disable_autostart: false,
    }
}

fn none() -> (r: ClickEffects)
    ensures
        r == no_effects(),
{
    ClickEffects {
        resize: false,
        save: false,
        show_about: false,
        open_website: false,
        open_github: false,
        refresh_tooltip: false,
        refresh_tray_icon: false,
        enable_auto_update: false,
        install: false,
        uninstall: false,
        start_update: false,
        open_release_page: false,
        toggle_autostart: None,
        disable_autostart: false,
    }
}

/// The month view moved by `delta` months, with nothing selected.
pub open spec fn shift_month(s: AppState, delta: int) -> AppState {
    let n = month_number(s.year as int, s.month as int, delta);
    AppState {
        year: (n / 12) as i32,
        month: (n % 12 + 1) as u32,
        selected_day: None,
        event_scroll: 0,
        ..s
    }
}

/// An arrow of the header: a day in the one-day view, else a month, to the
/// left or right as the grid's direction has it.
pub open spec fn arrow(s: AppState, forward: bool) -> AppState {
    if s.settings.compact_day {
        select_date(s, move_target(s, if forward { 1 } else { -1 }))
    } else {
        shift_month(s, if forward == s.settings.calendar_rtl { -1 } else { 1 })
    }
}

/// After the Today button the window shows and selects today, whatever was
/// selected before; only the list position may change besides (back to the
/// top), and nothing at all changes when today was already shown and
/// selected.
pub proof fn lemma_today_click(s: AppState)
    ensures
        ({
            let t = spec_today_main(s);
            let r = spec_calendar_click(s, CalendarHit::Today);
            &&& r.0.year == t.year
            &&& r.0.month == t.month
            &&& r.0.selected_day == Some(t.day)
            &&& r.0 == (AppState { year: t.year, month: t.month, selected_day: Some(t.day), event_scroll: r.0.event_scroll, ..s })
            &&& r.0.event_scroll == 0 || r.0 == s
            &&& r.1 == no_effects()
        }),
{
}

/// Today, selected; unchanged when it already is.
pub open spec fn go_today(s: AppState) -> AppState {
    let t = spec_today_main(s);
    if s.year == t.year && s.month == t.month && s.selected_day == Some(t.day) {
        s
    } else {
        select_date(s, t)
    }
}

/// A grid cell clicked: its day is selected (or unselected when it already
/// was), showing its month when it belongs to a neighbour.
pub open spec fn pick_cell(s: AppState, cell: int) -> AppState {
    let (d, in_current) = spec_adjacent_date(s.settings.main_calendar, s.year, s.month, cell);
    AppState {
        year: if in_current { s.year } else { d.year },
        month: if in_current { s.month } else { d.month },
        selected_day: if in_current && s.selected_day == Some(d.day) { None } else { Some(d.day) },
        event_scroll: 0,
        ..s
    }
}

/// The scrollbar of the occasions list clicked at height `y`: the first
/// visible occasion in proportion to the height along the track.
pub open spec fn scroll_to(s: AppState, y: int) -> AppState {
    let count = spec_event_items(s).len() as int;
    let max_scroll = if count > 3 { count - 3 } else { 0 };
    if max_scroll > 0 {
        let track_top = spec_events_top(s) + 40;
        let track_bottom = spec_events_top(s) + BASE_EVENTS_HEIGHT - 18;
        let span = track_bottom - track_top;
        let relative = if y - track_top < 0 {
            0
        } else if y - track_top > span {
            span
        } else {
            y - track_top
        };
        let v = relative * max_scroll / span;
        AppState { event_scroll: (if v < max_scroll { v } else { max_scroll }) as usize, ..s }
    } else {
        s
    }
}

/// The state after a click on a month-view control, and its effects.
pub open spec fn spec_calendar_click(s: AppState, hit: CalendarHit) -> (AppState, ClickEffects) {
    match hit {
        CalendarHit::Previous => (arrow(s, false), no_effects()),
        CalendarHit::Next => (arrow(s, true), no_effects()),
        CalendarHit::About => (s, ClickEffects { show_about: true, ..no_effects() }),
        CalendarHit::OpenSettings => (
            AppState { view: ViewMode::Settings, ..s },
            ClickEffects { resize: true, ..no_effects() },
        ),
        CalendarHit::Today => (go_today(s), no_effects()),
        CalendarHit::Cell(cell) => (pick_cell(s, cell as int), no_effects()),
        CalendarHit::Scroll(y) => (scroll_to(s, y as int), no_effects()),
        CalendarHit::Nothing => (s, no_effects()),
    }
}

/// A month-view control stays within machine integers.
pub open spec fn calendar_click_ok(s: AppState, hit: CalendarHit) -> bool {
    match hit {
        CalendarHit::Previous => s.settings.compact_day ==> move_ok(s, -1),
        CalendarHit::Next => s.settings.compact_day ==> move_ok(s, 1),
        CalendarHit::Today => today_ok(s),
        CalendarHit::Cell(cell) => adjacent_ok(s.settings.main_calendar, s.year, s.month, cell as int),
        CalendarHit::Scroll(_) => items_ok(s) && spec_event_items(s).len() * 78 <= usize::MAX,
        _ => true,
    }
}

fn shift_shown_month(app: &mut AppState, delta: i32)
    ensures
        *final(app) == shift_month(*old(app), delta as int),
{
    let (mut year, mut month) = (app.year, app.month);
    add_month(app.settings.main_calendar, &mut year, &mut month, delta);
    app.year = year;
    app.month = month;
    app.selected_day = None;
    app.event_scroll = 0;
}

pub fn calendar_click(app: &mut AppState, hit: CalendarHit) -> (e: ClickEffects)
    requires
        calendar_click_ok(*old(app), hit),
    ensures
        *final(app) == spec_calendar_click(*old(app), hit).0,
        e == spec_calendar_click(*old(app), hit).1,
        hit == CalendarHit::Today ==> final(app).year == spec_today_main(*old(app)).year
            && final(app).month == spec_today_main(*old(app)).month && final(app).selected_day
            == Some(spec_today_main(*old(app)).day),
{
    proof {
        lemma_today_click(*old(app));
    }
    match hit {
        CalendarHit::Previous => {
            if app.settings.compact_day {
                move_calendar_day(app, -1);
            } else {
                shift_shown_month(app, if app.settings.calendar_rtl { 1 } else { -1 });
            }
            none()
        },
        CalendarHit::Next => {
            if app.settings.compact_day {
                move_calendar_day(app, 1);
            } else {
                shift_shown_month(app, if app.settings.calendar_rtl { -1 } else { 1 });
            }
            none()
        },
        CalendarHit::About => ClickEffects { show_about: true, ..none() },
        CalendarHit::OpenSettings => {
            app.view = ViewMode::Settings;
            ClickEffects { resize: true, ..none() }
        },
        CalendarHit::Today => {
            let today = app.today_main();
            let active = app.year == today.year && app.month == today.month && match app.selected_day {
                Some(d) => d == today.day,
                None => false,
            };
            if !active {
                app.year = today.year;
                app.month = today.month;
                app.selected_day = Some(today.day);
                app.event_scroll = 0;
            }
            none()
        },
        CalendarHit::Cell(cell) => {
            let (clicked, in_current) = adjacent_date(
                app.settings.main_calendar,
                app.year,
                app.month,
                cell,
            );
            if !in_current {
                app.year = clicked.year;
                app.month = clicked.month;
            }
            let again = in_current && match app.selected_day {
                Some(d) => d == clicked.day,
                None => false,
            };
            app.selected_day = if again { None } else { Some(clicked.day) };
            app.event_scroll = 0;
            none()
        },
        CalendarHit::Scroll(y) => {
            let count = event_items_for_view(app).len();
            let max_scroll: usize = if count > 3 { count - 3 } else { 0 };
            if max_scroll > 0 {
                let top = events_top(app);
                let track_top = top + 40;
                let track_bottom = top + BASE_EVENTS_HEIGHT - 18;
                let span = track_bottom - track_top;
                let offset: i64 = y as i64 - track_top as i64;
                let relative: i64 = if offset < 0 {
                    0
                } else if offset > span as i64 {
                    span as i64
                } else {
                    offset
                };
                assert(0 <= relative <= 78);
                assert(relative * max_scroll <= 78 * count) by (nonlinear_arith)
                    requires
                        0 <= relative <= 78,
                        max_scroll <= count,
                ;
                let v = relative as usize * max_scroll / span as usize;
                app.event_scroll = if v < max_scroll { v } else { max_scroll };
            }
            none()
        },
        CalendarHit::Nothing => none(),
    }
}

/// The other theme.
pub open spec fn flipped(t: Theme) -> Theme {
    match t {
        Theme::Dark => Theme::Light,
        Theme::Light => Theme::Dark,
    }
}

/// The state with other settings.
pub open spec fn with_settings(s: AppState, settings: Settings) -> AppState {
    AppState { settings, ..s }
}

/// A changed setting that only needs saving.
pub open spec fn saved(s: AppState, settings: Settings) -> (AppState, ClickEffects) {
    (with_settings(s, settings), ClickEffects { save: true, ..no_effects() })
}

/// The one-day view switched on or off; switching it on selects the current
/// day when nothing is selected.
pub open spec fn compact_toggled(s: AppState) -> AppState {
    let compact = !s.settings.compact_day;
    AppState {
        settings: Settings { compact_day: compact, ..s.settings },
        selected_day: if compact && s.selected_day is None {
            Some(current_day(s))
        } else {
            s.selected_day
        },
        event_scroll: 0,
        ..s
    }
}

/// Every setting back to its default, the main calendar changed as a change
/// of main calendar does.
pub open spec fn reset_state(s: AppState) -> AppState {
    let d = default_settings();
    let moved = if d.main_calendar != s.settings.main_calendar {
        spec_set_main_calendar(s, d.main_calendar)
    } else {
        s
    };
    with_settings(moved, d)
}

/// Whether a row only changes a setting.
pub open spec fn is_plain_row(hit: SettingsHit) -> bool {
    match hit {
        SettingsHit::Theme | SettingsHit::Scale(_) | SettingsHit::Direction | SettingsHit::Jalali
        | SettingsHit::Gregorian | SettingsHit::Hijri | SettingsHit::Subtitles
        | SettingsHit::Events | SettingsHit::TrayDate | SettingsHit::AutoUpdate
        | SettingsHit::TrayIcon | SettingsHit::Digits => true,
        _ => false,
    }
}

/// The settings after a click on a row that only changes a setting.
pub open spec fn plain_row_settings(t: Settings, hit: SettingsHit) -> Settings {
    match hit {
        SettingsHit::Theme => Settings { theme: flipped(t.theme), ..t },
        SettingsHit::Scale(x) => Settings {
            ui_scale: if x <= 68 {
                smaller_scale(t.ui_scale as int) as u32
            } else if 112 <= x <= 160 {
                larger_scale(t.ui_scale as int) as u32
            } else {
                t.ui_scale
            },
            ..t
        },
        SettingsHit::Direction => Settings { calendar_rtl: !t.calendar_rtl, ..t },
        SettingsHit::Jalali => Settings { show_jalali: !t.show_jalali, ..t },
        SettingsHit::Gregorian => Settings { show_gregorian: !t.show_gregorian, ..t },
        SettingsHit::Hijri => Settings { show_hijri: !t.show_hijri, ..t },
        SettingsHit::Subtitles => Settings { show_subtitles: !t.show_subtitles, ..t },
        SettingsHit::Events => Settings { show_events: !t.show_events, ..t },
        SettingsHit::TrayDate => Settings { show_tray_date: !t.show_tray_date, ..t },
        SettingsHit::AutoUpdate => Settings { auto_update: !t.auto_update, ..t },
        SettingsHit::TrayIcon => Settings { tray_day_icon: !t.tray_day_icon, ..t },
        SettingsHit::Digits => Settings { tray_english_digits: !t.tray_english_digits, ..t },
        _ => t,
    }
}

/// The effects of a click on a row that only changes a setting: it is
/// written, and what shows it is refreshed.
pub open spec fn plain_row_effects(t: Settings, hit: SettingsHit) -> ClickEffects {
    match hit {
        SettingsHit::Scale(_) | SettingsHit::Events => ClickEffects {
            save: true,
            resize: true,
            ..no_effects()
        },
        SettingsHit::TrayDate => ClickEffects { save: true, refresh_tooltip: true, ..no_effects() },
        SettingsHit::AutoUpdate => ClickEffects {
            save: true,
            resize: true,
            enable_auto_update: !t.auto_update,
            ..no_effects()
        },
        SettingsHit::TrayIcon | SettingsHit::Digits => ClickEffects {
            save: true,
            refresh_tray_icon: true,
            ..no_effects()
        },
        _ => ClickEffects { save: true, ..no_effects() },
    }
}

/// The state after a click on a row of the in-window settings view, and its
/// effects; the install button asks for an install only when the installed
/// copy's state `installation` allows one.
pub open spec fn spec_settings_click(s: AppState, hit: SettingsHit, installation: InstallationState) -> (AppState, ClickEffects) {
    let t = s.settings;
    if is_plain_row(hit) {
        (with_settings(s, plain_row_settings(t, hit)), plain_row_effects(t, hit))
    } else {
        match hit {
            SettingsHit::Back => (
                AppState { view: ViewMode::Calendar, ..s },
                ClickEffects { resize: true, ..no_effects() },
            ),
            SettingsHit::Calendar => (
                spec_set_main_calendar(s, kind_next(t.main_calendar)),
                ClickEffects { save: true, ..no_effects() },
            ),
            SettingsHit::Compact => (
                compact_toggled(s),
                ClickEffects { save: true, resize: true, ..no_effects() },
            ),
            SettingsHit::Autostart => (
                s,
                ClickEffects { toggle_autostart: Some(!t.autostart), ..no_effects() },
            ),
            SettingsHit::Install => (
                s,
                ClickEffects { install: spec_install_allowed(installation), ..no_effects() },
            ),
            SettingsHit::Uninstall => (s, ClickEffects { uninstall: true, ..no_effects() }),
            SettingsHit::Reset => {
                let d = default_settings();
                (
                    reset_state(s),
                    ClickEffects {
                        save: true,
                        resize: true,
                        refresh_tooltip: true,
                        refresh_tray_icon: true,
                        enable_auto_update: d.auto_update,
                        disable_autostart: t.autostart && !d.autostart,
                        ..no_effects()
                    },
                )
            },
            _ => (s, no_effects()),
        }
    }
}

/// A settings row stays within machine integers.
pub open spec fn settings_click_ok(s: AppState, hit: SettingsHit) -> bool {
    match hit {
        SettingsHit::Calendar => switch_ok(s, kind_next(s.settings.main_calendar)),
        SettingsHit::Compact => !s.settings.compact_day && s.selected_day is None ==> today_ok(s),
        SettingsHit::Reset => s.settings.main_calendar != CalendarKind::Jalali ==> switch_ok(
            s,
            CalendarKind::Jalali,
        ),
        _ => true,
    }
}

fn reset_click(app: &mut AppState) -> (e: ClickEffects)
    requires
        settings_click_ok(*old(app), SettingsHit::Reset),
    ensures
        *final(app) == reset_state(*old(app)),
        forall|i: InstallationState| e == #[trigger] spec_settings_click(*old(app), SettingsHit::Reset, i).1,
{
    let defaults = Settings::default();
    let disable = app.settings.autostart && !defaults.autostart;
    if defaults.main_calendar != app.settings.main_calendar {
        app.set_main_calendar(defaults.main_calendar);
    }
    app.settings = defaults;
    ClickEffects {
        resize: true,
        refresh_tooltip: true,
        refresh_tray_icon: true,
        enable_auto_update: defaults.auto_update,
        disable_autostart: disable,
        ..saved_effects()
    }
}

fn compact_click(app: &mut AppState)
    requires
        !old(app).settings.compact_day && old(app).selected_day is None ==> today_ok(*old(app)),
    ensures
        *final(app) == compact_toggled(*old(app)),
{
    app.settings.compact_day = !app.settings.compact_day;
    if app.settings.compact_day {
        app.ensure_daily_selection();
    }
    app.event_scroll = 0;
}

fn saved_effects() -> (r: ClickEffects)
    ensures
        r == (ClickEffects { save: true, ..no_effects() }),
{
    ClickEffects { save: true, ..none() }
}

fn scale_click(settings: &mut Settings, x: i32)
    ensures
        *final(settings) == plain_row_settings(*old(settings), SettingsHit::Scale(x)),
{
    if x <= 68 {
        settings.smaller();
    } else if 112 <= x && x <= 160 {
        settings.larger();
    }
}

fn plain_row_click(settings: &mut Settings, hit: SettingsHit) -> (e: ClickEffects)
    requires
        is_plain_row(hit),
    ensures
        *final(settings) == plain_row_settings(*old(settings), hit),
        e == plain_row_effects(*old(settings), hit),
{
    let t = *settings;
    if let SettingsHit::Scale(x) = hit {
        scale_click(settings, x);
        return ClickEffects { resize: true, ..saved_effects() };
    }
    *settings = match hit {
        SettingsHit::Theme => Settings {
            theme: match t.theme {
                Theme::Dark => Theme::Light,
                Theme::Light => Theme::Dark,
            },
            ..t
        },
        SettingsHit::Direction => Settings { calendar_rtl: !t.calendar_rtl, ..t },
        SettingsHit::Jalali => Settings { show_jalali: !t.show_jalali, ..t },
        SettingsHit::Gregorian => Settings { show_gregorian: !t.show_gregorian, ..t },
        SettingsHit::Hijri => Settings { show_hijri: !t.show_hijri, ..t },
        SettingsHit::Subtitles => Settings { show_subtitles: !t.show_subtitles, ..t },
        SettingsHit::Events => Settings { show_events: !t.show_events, ..t },
        SettingsHit::TrayDate => Settings { show_tray_date: !t.show_tray_date, ..t },
        SettingsHit::AutoUpdate => Settings { auto_update: !t.auto_update, ..t },
        SettingsHit::TrayIcon => Settings { tray_day_icon: !t.tray_day_icon, ..t },
        SettingsHit::Digits => Settings { tray_english_digits: !t.tray_english_digits, ..t },
        _ => t,
    };
    match hit {
        SettingsHit::Events => ClickEffects { resize: true, ..saved_effects() },
        SettingsHit::TrayDate => ClickEffects { refresh_tooltip: true, ..saved_effects() },
        SettingsHit::AutoUpdate => ClickEffects {
            resize: true,
            enable_auto_update: !t.auto_update,
            ..saved_effects()
        },
        SettingsHit::TrayIcon | SettingsHit::Digits => ClickEffects {
            refresh_tray_icon: true,
            ..saved_effects()
        },
        _ => saved_effects(),
    }
}

pub fn settings_click(app: &mut AppState, hit: SettingsHit, installation: InstallationState) -> (e: ClickEffects)
    requires
        settings_click_ok(*old(app), hit),
    ensures
        *final(app) == spec_settings_click(*old(app), hit, installation).0,
        e == spec_settings_click(*old(app), hit, installation).1,
{
    match hit {
        SettingsHit::Back => {
            app.view = ViewMode::Calendar;
            ClickEffects { resize: true, ..none() }
        },
        SettingsHit::Calendar => {
            let next = app.settings.main_calendar.next();
            app.set_main_calendar(next);
            saved_effects()
        },
        SettingsHit::Compact => {
            compact_click(app);
            ClickEffects { resize: true, ..saved_effects() }
        },
        SettingsHit::Autostart => ClickEffects { toggle_autostart: Some(!app.settings.autostart), ..none() },
        SettingsHit::Install => ClickEffects { install: install_allowed(installation), ..none() },
        SettingsHit::Uninstall => ClickEffects { uninstall: true, ..none() },
        SettingsHit::Reset => reset_click(app),
        SettingsHit::Nothing => none(),
        _ => plain_row_click(&mut app.settings, hit),
    }
}

/// The state after a click at window coordinates (x, y), and its effects.
pub open spec fn spec_handle_main_click(s: AppState, x: int, y: int, banner: UpdateBanner, installation: InstallationState) -> (
    AppState,
    ClickEffects,
) {
    match spec_main_hit(s, x, y, banner) {
        MainHit::Website => (s, ClickEffects { open_website: true, ..no_effects() }),
        MainHit::Github => (s, ClickEffects { open_github: true, ..no_effects() }),
        MainHit::Banner => (
            s,
            match banner {
                UpdateBanner::Available => ClickEffects { start_update: true, ..no_effects() },
                UpdateBanner::Failed => ClickEffects { open_release_page: true, ..no_effects() },
                _ => no_effects(),
            },
        ),
        MainHit::Calendar(hit) => spec_calendar_click(s, hit),
        MainHit::Settings(hit) => spec_settings_click(s, hit, installation),
    }
}

/// A click stays within machine integers.
pub open spec fn click_ok(s: AppState, x: int, y: int, banner: UpdateBanner) -> bool {
    &&& s.settings.ui_scale > 0
    &&& match spec_main_hit(s, x, y, banner) {
        MainHit::Calendar(hit) => calendar_click_ok(s, hit),
        MainHit::Settings(hit) => settings_click_ok(s, hit),
        _ => true,
    }
}

/// Handles a click of the calendar window at (x, y), the banner showing
/// `banner` and the installed copy in state `installation`.
pub fn handle_main_click(
    app: &mut AppState,
    x: i32,
    y: i32,
    banner: UpdateBanner,
    installation: InstallationState,
) -> (e: ClickEffects)
    requires
        click_ok(*old(app), x as int, y as int, banner),
    ensures
        *final(app) == spec_handle_main_click(*old(app), x as int, y as int, banner, installation).0,
        e == spec_handle_main_click(*old(app), x as int, y as int, banner, installation).1,
{
    match main_hit(app, x, y, banner) {
        MainHit::Website => ClickEffects { open_website: true, ..none() },
        MainHit::Github => ClickEffects { open_github: true, ..none() },
        MainHit::Banner => match banner {
            UpdateBanner::Available => ClickEffects { start_update: true, ..none() },
            UpdateBanner::Failed => ClickEffects { open_release_page: true, ..none() },
            _ => none(),
        },
        MainHit::Calendar(hit) => calendar_click(app, hit),
        MainHit::Settings(hit) => settings_click(app, hit, installation),
    }
}

/// Records the outcome of a change of the start-with-Windows entry; true
/// when the settings are then to be written.
pub fn confirm_autostart(app: &mut AppState, next: bool, succeeded: bool) -> (save: bool)
    ensures
        save == succeeded,
        *final(app) == if succeeded {
            with_settings(*old(app), Settings { autostart: next, ..old(app).settings })
        } else {
            *old(app)
        },
{
    if succeeded {
        app.settings.autostart = next;
    }
    succeeded
}

/// Where the installed copy of the program stands against the running one.
#[derive(Clone, Copy, Debug, PartialEq, Eq, Structural)]
pub enum InstallationState {
    NotInstalled,
    InstalledCurrent,
    UpdateAvailable,
    InstalledOtherUpToDate,
}

/// Installing is offered when nothing is installed or the running copy is newer.
pub open spec fn spec_install_allowed(state: InstallationState) -> bool {
    state == InstallationState::NotInstalled || state == InstallationState::UpdateAvailable
}

pub fn install_allowed(state: InstallationState) -> (r: bool)
    ensures
        r == spec_install_allowed(state),
{
    match state {
        InstallationState::NotInstalled | InstallationState::UpdateAvailable => true,
        _ => false,
    }
}

/// A file version `(major, minor, build, revision)` as one number, compared
/// field by field.
pub open spec fn version_rank(v: (u16, u16, u16, u16)) -> int {
    ((v.0 as int * 65536 + v.1 as int) * 65536 + v.2 as int) * 65536 + v.3 as int
}

/// The running copy is newer when both versions are known and its version
/// is the greater.
pub open spec fn spec_version_is_newer(
    current: Option<(u16, u16, u16, u16)>,
    installed: Option<(u16, u16, u16, u16)>,
) -> bool {
    match (current, installed) {
        (Some(c), Some(i)) => version_rank(c) > version_rank(i),
        _ => false,
    }
}

/// The order on versions is the field-by-field (lexicographic) order:
/// major, then minor, then build, then revision.
pub open spec fn version_greater(c: (u16, u16, u16, u16), i: (u16, u16, u16, u16)) -> bool {
    c.0 > i.0 || (c.0 == i.0 && (c.1 > i.1 || (c.1 == i.1 && (c.2 > i.2 || (c.2 == i.2 && c.3
        > i.3)))))
}

/// The running copy counts as newer exactly when both versions are known
/// and it is greater in the field-by-field order, so a larger build with the
/// same major and minor version is newer.
pub proof fn lemma_version_order(c: (u16, u16, u16, u16), i: (u16, u16, u16, u16))
    ensures
        spec_version_is_newer(Some(c), Some(i)) == version_greater(c, i),
        !spec_version_is_newer(None, Some(i)),
        !spec_version_is_newer(Some(c), None),
{
    let (a0, a1, a2, a3) = (c.0 as int, c.1 as int, c.2 as int, c.3 as int);
    let (b0, b1, b2, b3) = (i.0 as int, i.1 as int, i.2 as int, i.3 as int);
    let lo_a = (a1 * 65536 + a2) * 65536 + a3;
    let lo_b = (b1 * 65536 + b2) * 65536 + b3;
    assert(version_rank(c) == a0 * 281474976710656 + lo_a) by (nonlinear_arith)
        requires lo_a == (a1 * 65536 + a2) * 65536 + a3, version_rank(c) == ((a0 * 65536 + a1) * 65536 + a2) * 65536 + a3;
    assert(version_rank(i) == b0 * 281474976710656 + lo_b) by (nonlinear_arith)
        requires lo_b == (b1 * 65536 + b2) * 65536 + b3, version_rank(i) == ((b0 * 65536 + b1) * 65536 + b2) * 65536 + b3;
    assert(0 <= lo_a < 281474976710656 && 0 <= lo_b < 281474976710656) by (nonlinear_arith)
        requires
            lo_a == (a1 * 65536 + a2) * 65536 + a3,
            lo_b == (b1 * 65536 + b2) * 65536 + b3,
            0 <= a1 < 65536, 0 <= a2 < 65536, 0 <= a3 < 65536,
            0 <= b1 < 65536, 0 <= b2 < 65536, 0 <= b3 < 65536;
    let m_a = a2 * 65536 + a3;
    let m_b = b2 * 65536 + b3;
    assert(lo_a == a1 * 4294967296 + m_a && lo_b == b1 * 4294967296 + m_b) by (nonlinear_arith)
        requires lo_a == (a1 * 65536 + a2) * 65536 + a3, lo_b == (b1 * 65536 + b2) * 65536 + b3,
            m_a == a2 * 65536 + a3, m_b == b2 * 65536 + b3;
    assert(0 <= m_a < 4294967296 && 0 <= m_b < 4294967296) by (nonlinear_arith)
        requires m_a == a2 * 65536 + a3, m_b == b2 * 65536 + b3,
            0 <= a2 < 65536, 0 <= a3 < 65536, 0 <= b2 < 65536, 0 <= b3 < 65536;
    assert((a0 * 281474976710656 + lo_a > b0 * 281474976710656 + lo_b) == (a0 > b0 || (a0 == b0 && lo_a > lo_b))) by (nonlinear_arith)
        requires 0 <= lo_a < 281474976710656, 0 <= lo_b < 281474976710656;
    assert((a1 * 4294967296 + m_a > b1 * 4294967296 + m_b) == (a1 > b1 || (a1 == b1 && m_a > m_b))) by (nonlinear_arith)
        requires 0 <= m_a < 4294967296, 0 <= m_b < 4294967296;
    assert((a2 * 65536 + a3 > b2 * 65536 + b3) == (a2 > b2 || (a2 == b2 && a3 > b3))) by (nonlinear_arith)
        requires 0 <= a3 < 65536, 0 <= b3 < 65536;
}

pub fn version_is_newer(
    current: Option<(u16, u16, u16, u16)>,
    installed: Option<(u16, u16, u16, u16)>,
) -> (r: bool)
    ensures
        r == spec_version_is_newer(current, installed),
        r == match (current, installed) {
            (Some(c), Some(i)) => version_greater(c, i),
            _ => false,
        },
{
    proof {
        if let (Some(c), Some(i)) = (current, installed) {
            lemma_version_order(c, i);
        }
    }
    match (current, installed) {
        (Some(c), Some(i)) => {
            if c.0 != i.0 {
                c.0 > i.0
            } else if c.1 != i.1 {
                c.1 > i.1
            } else if c.2 != i.2 {
                c.2 > i.2
            } else {
                c.3 > i.3
            }
        },
        _ => false,
    }
}

/// The installation state from what the file system shows: whether the
/// installed program exists, whether the running program's path is known,
/// whether the two are the same file, and whether the running one is newer.
pub open spec fn spec_installation_state(
    installed_exists: bool,
    current_known: bool,
    same_file: bool,
    running_newer: bool,
) -> InstallationState {
    if !installed_exists {
        InstallationState::NotInstalled
    } else if !current_known {
        InstallationState::InstalledOtherUpToDate
    } else if same_file {
        InstallationState::InstalledCurrent
    } else if running_newer {
        InstallationState::UpdateAvailable
    } else {
        InstallationState::InstalledOtherUpToDate
    }
}

pub fn installation_state_of(
    installed_exists: bool,
    current_known: bool,
    same_file: bool,
    running_newer: bool,
) -> (r: InstallationState)
    ensures
        r == spec_installation_state(installed_exists, current_known, same_file, running_newer),
{
    if !installed_exists {
        InstallationState::NotInstalled
    } else if !current_known {
        InstallationState::InstalledOtherUpToDate
    } else if same_file {
        InstallationState::InstalledCurrent
    } else if running_newer {
        InstallationState::UpdateAvailable
    } else {
        InstallationState::InstalledOtherUpToDate
    }
}

} // verus!
