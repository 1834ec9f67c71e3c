//! What choosing a button of the settings panel does to the calendar
//! window's state.
use vstd::prelude::*;
use crate::calendar::CalendarKind;
use crate::clicks::with_settings;
use crate::panel::{Action, flag, is_main_row, row_selected, row_toggle};
use crate::settings::{Settings, Theme, default_settings};
use crate::theme::{ThemeColors, preset_accent, preset_primary};
use crate::view::{AppState, current_day, spec_set_main_calendar, switch_ok, today_ok};

verus! {

/// The interface scale of the `index`-th scale button.
pub open spec fn scale_choice(index: int) -> u32 {
    if index == 0 {
        80
    } else if index == 1 {
        90
    } else if index == 2 {
        100
    } else if index == 3 {
        110
    } else {
        125
    }
}

/// The main calendar of the `index`-th calendar button.
pub open spec fn calendar_choice(index: int) -> CalendarKind {
    if index == 0 {
        CalendarKind::Jalali
    } else if index == 1 {
        CalendarKind::Gregorian
    } else {
        CalendarKind::Hijri
    }
}

/// The settings with a theme's preset colours written out.
pub open spec fn with_preset(t: Settings, theme: Theme) -> Settings {
    Settings {
        theme,
        primary: Some(preset_primary(theme)),
        accent: Some(preset_accent(theme)),
        ..t
    }
}

/// Whether choosing `action` first changes the start-with-Windows entry, and
/// to what: the switch flips it, a reset restores the default when it differs.
pub open spec fn autostart_needed(t: Settings, action: Action) -> Option<bool> {
    match action {
        Action::Autostart => Some(!t.autostart),
        Action::Reset => if t.autostart != default_settings().autostart {
            Some(default_settings().autostart)
        } else {
            None
        },
        _ => None,
    }
}

pub fn autostart_request(settings: &Settings, action: Action) -> (r: Option<bool>)
    ensures
        r == autostart_needed(*settings, action),
{
    let defaults = Settings::default();
    match action {
        Action::Autostart => Some(!settings.autostart),
        Action::Reset => if settings.autostart != defaults.autostart {
            Some(defaults.autostart)
        } else {
            None
        },
        _ => None,
    }
}

/// The one-day view chosen (`index` 1) or the month grid; choosing the
/// one-day view selects the current day when nothing is selected.
pub open spec fn layout_chosen(s: AppState, index: int) -> AppState {
    let compact = index == 1;
    AppState {
        settings: Settings { compact_day: compact, ..s.settings },
        hovered_cell: None,
        selected_day: if compact && s.selected_day is None {
            Some(current_day(s))
        } else {
            s.selected_day
        },
        event_scroll: 0,
        ..s
    }
}

/// The settings after choosing the `index`-th button of a row that changes
/// the settings alone.
pub open spec fn settings_after(t: Settings, action: Action, index: int) -> Settings {
    match action {
        Action::Theme => {
            let theme = if index == 0 { Theme::Dark } else { Theme::Light };
            if theme != t.theme {
                with_preset(t, theme)
            } else {
                t
            }
        },
        Action::ThemeReset => with_preset(t, t.theme),
        Action::Scale => Settings { ui_scale: scale_choice(index), ..t },
        Action::Direction => Settings { calendar_rtl: index == 0, ..t },
        Action::Jalali => Settings { show_jalali: !t.show_jalali, ..t },
        Action::Gregorian => Settings { show_gregorian: !t.show_gregorian, ..t },
        Action::Hijri => Settings { show_hijri: !t.show_hijri, ..t },
        Action::Subtitles => Settings { show_subtitles: !t.show_subtitles, ..t },
        Action::Events => Settings { show_events: !t.show_events, ..t },
        Action::TrayContent => Settings { tray_day_icon: index == 1, ..t },
        Action::Digits => Settings { tray_english_digits: index == 1, ..t },
        Action::TrayText => Settings { tray_text_white: index == 0, ..t },
        Action::TrayBackground => Settings { tray_accent_background: index == 1, ..t },
        Action::Tooltip => Settings { show_tray_date: !t.show_tray_date, ..t },
        Action::Autostart => Settings { autostart: !t.autostart, ..t },
        Action::AutoUpdate => Settings { auto_update: !t.auto_update, ..t },
        _ => t,
    }
}

/// The state after choosing the `index`-th button of a row: a calendar
/// button changes the main calendar as `set_main_calendar` does, the layout
/// buttons switch the one-day view, a reset restores every default.
pub open spec fn spec_apply_setting(s: AppState, action: Action, index: int) -> AppState {
    match action {
        Action::Calendar => spec_set_main_calendar(s, calendar_choice(index)),
        Action::Layout => layout_chosen(s, index),
        Action::Reset => with_settings(
            spec_set_main_calendar(s, default_settings().main_calendar),
            default_settings(),
        ),
        _ => with_settings(s, settings_after(s.settings, action, index)),
    }
}

/// Choosing a button stays in range: a scale or calendar button exists, and
/// the change of main calendar stays within machine integers.
pub open spec fn apply_ok(s: AppState, action: Action, index: int) -> bool {
    match action {
        Action::Scale => index < 5,
        Action::Calendar => index < 3 && switch_ok(s, calendar_choice(index)),
        Action::Layout => index == 1 && s.selected_day is None ==> today_ok(s),
        Action::Reset => switch_ok(s, default_settings().main_calendar),
        _ => true,
    }
}

fn preset_settings(t: Settings, theme: Theme) -> (r: Settings)
    ensures
        r == with_preset(t, theme),
{
    let colors = ThemeColors::preset(theme);
    Settings { theme, primary: Some(colors.primary), accent: Some(colors.accent), ..t }
}

fn preset_choice(t: Settings, action: Action, index: usize) -> (r: Settings)
    requires
        action == Action::Theme || action == Action::ThemeReset,
    ensures
        r == settings_after(t, action, index as int),
{
    if action == Action::ThemeReset {
        return preset_settings(t, t.theme);
    }
    let theme = if index == 0 {
        Theme::Dark
    } else {
        Theme::Light
    };
    if theme == t.theme {
        t
    } else {
        preset_settings(t, theme)
    }
}

fn settings_choice(t: Settings, action: Action, index: usize) -> (r: Settings)
    requires
        action == Action::Scale ==> index < 5,
    ensures
        r == settings_after(t, action, index as int),
{
    if action == Action::Theme || action == Action::ThemeReset {
        return preset_choice(t, action, index);
    }
    let scale: u32 = if action == Action::Scale {
        let scales: [u32; 5] = [80, 90, 100, 110, 125];
        scales[index]
    } else {
        t.ui_scale
    };
    match action {
        Action::Scale => Settings { ui_scale: scale, ..t },
        Action::Direction => Settings { calendar_rtl: index == 0, ..t },
        Action::Jalali => Settings { show_jalali: !t.show_jalali, ..t },
        Action::Gregorian => Settings { show_gregorian: !t.show_gregorian, ..t },
        Action::Hijri => Settings { show_hijri: !t.show_hijri, ..t },
        Action::Subtitles => Settings { show_subtitles: !t.show_subtitles, ..t },
        Action::Events => Settings { show_events: !t.show_events, ..t },
        Action::TrayContent => Settings { tray_day_icon: index == 1, ..t },
        Action::Digits => Settings { tray_english_digits: index == 1, ..t },
        Action::TrayText => Settings { tray_text_white: index == 0, ..t },
        Action::TrayBackground => Settings { tray_accent_background: index == 1, ..t },
        Action::Tooltip => Settings { show_tray_date: !t.show_tray_date, ..t },
        Action::Autostart => Settings { autostart: !t.autostart, ..t },
        Action::AutoUpdate => Settings { auto_update: !t.auto_update, ..t },
        _ => t,
    }
}

#[verifier::rlimit(40)]
fn layout_click(app: &mut AppState, index: usize)
    requires
        index == 1 && old(app).selected_day is None ==> today_ok(*old(app)),
    ensures
        *final(app) == layout_chosen(*old(app), index as int),
{
    let compact = index == 1;
    app.settings.compact_day = compact;
    if compact {
        app.ensure_daily_selection();
    }
    app.event_scroll = 0;
    app.hovered_cell = None;
}

/// Chooses the `index`-th button of the row of `action`, after the
/// start-with-Windows entry was changed as `autostart_request` asked (with
/// the given outcome). False, with nothing changed, when that change failed.
pub fn apply_setting(app: &mut AppState, action: Action, index: usize, autostart_succeeded: bool) -> (applied: bool)
    requires
        apply_ok(*old(app), action, index as int),
    ensures
        applied == (autostart_needed(old(app).settings, action) is None || autostart_succeeded),
        *final(app) == if applied {
            spec_apply_setting(*old(app), action, index as int)
        } else {
            *old(app)
        },
{
    let needed = autostart_request(&app.settings, action);
    if needed.is_some() && !autostart_succeeded {
        return false;
    }
    match action {
        Action::Calendar => {
            let kinds: [CalendarKind; 3] = [
                CalendarKind::Jalali,
                CalendarKind::Gregorian,
                CalendarKind::Hijri,
            ];
            app.set_main_calendar(kinds[index]);
        },
        Action::Layout => layout_click(app, index),
        Action::Reset => {
            let defaults = Settings::default();
            app.set_main_calendar(defaults.main_calendar);
            app.settings = defaults;
        },
        _ => {
            app.settings = settings_choice(app.settings, action, index);
        },
    }
    true
}

/// Puts back the settings that were in effect before a choice that could
/// not be saved; the main calendar changes back as `set_main_calendar` does.
/// Returns the start-with-Windows value to restore, when it changed.
pub fn restore_settings(app: &mut AppState, previous: Settings) -> (r: Option<bool>)
    requires
        switch_ok(*old(app), previous.main_calendar),
    ensures
        r == if previous.autostart != old(app).settings.autostart {
            Some(previous.autostart)
        } else {
            None
        },
        *final(app) == with_settings(spec_set_main_calendar(*old(app), previous.main_calendar), previous),
{
    let restore = if previous.autostart != app.settings.autostart {
        Some(previous.autostart)
    } else {
        None
    };
    app.set_main_calendar(previous.main_calendar);
    app.settings = previous;
    restore
}

/// Whether a choice starts downloading an available update: automatic
/// updates are on after switching them or after a reset.
pub open spec fn spec_starts_download(t: Settings, action: Action, update_available: bool) -> bool {
    t.auto_update && (action == Action::AutoUpdate || action == Action::Reset) && update_available
}

pub fn starts_download(settings: &Settings, action: Action, update_available: bool) -> (r: bool)
    ensures
        r == spec_starts_download(*settings, action, update_available),
{
    settings.auto_update && (action == Action::AutoUpdate || action == Action::Reset) && update_available
}

/// Choosing the button that a row shows as chosen leaves the settings as
/// they are (for the scale, when it is one of the five offered).
pub proof fn lemma_chosen_button_keeps_settings(s: Settings, a: Action)
    requires
        a == Action::Theme || a == Action::Direction || a == Action::TrayContent || a
            == Action::Digits || a == Action::TrayText || a == Action::TrayBackground || (a
            == Action::Scale && (s.ui_scale == 80 || s.ui_scale == 90 || s.ui_scale == 100
            || s.ui_scale == 110 || s.ui_scale == 125)),
    ensures
        row_selected(s, a) is Some,
        settings_after(s, a, row_selected(s, a).unwrap() as int) == s,
{
}

/// The calendar button shown as chosen is the main calendar, and the layout
/// button shown as chosen keeps the settings.
pub proof fn lemma_chosen_calendar_and_layout(st: AppState)
    ensures
        calendar_choice(row_selected(st.settings, Action::Calendar).unwrap() as int)
            == st.settings.main_calendar,
        layout_chosen(st, row_selected(st.settings, Action::Layout).unwrap() as int).settings
            == st.settings,
{
}

/// Choosing a switch flips what its row shows; the main calendar's switch,
/// which always shows on, is the exception.
pub proof fn lemma_switch_flips(s: Settings, a: Action, index: int)
    requires
        row_toggle(a),
        !is_main_row(s, a),
    ensures
        row_selected(settings_after(s, a, index), a) == Some(
            flag(row_selected(s, a) == Some(0usize)),
        ),
{
}

} // verus!
