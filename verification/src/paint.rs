//! What the windows draw, short of drawing it: the colours of the grid's
//! cells and of the controls, the rows of the settings view, and where the
//! about box and the confirmation box take their clicks.
use vstd::prelude::*;
use crate::calendar::{CalendarKind, from_gregorian, from_gregorian_ok, spec_from_gregorian};
use crate::clicks::InstallationState;
use crate::grid::GridCell;
use crate::layout::{Palette, spec_rgb, rgb};
use crate::panel::Row;
use crate::settings::Settings;
use crate::text::{int_decimal, persian_number, to_persian_digits};
use crate::view::{AppState, spec_today_main, today_ok};

verus! {

// ---------------------------------------------------------------------------
// The month view
// ---------------------------------------------------------------------------

/// How a grid cell is drawn.
#[derive(Clone, Copy, Debug, PartialEq, Eq, Structural)]
pub struct CellStyle {
    /// The cell's background, if it has one.
    pub fill: Option<u32>,
    /// The cell's frame, if it has one.
    pub outline: Option<u32>,
    /// The colour of the day's number.
    pub day: u32,
    /// The colour of the secondary calendars' numbers.
    pub secondary: u32,
    /// The colour of the dot that marks occasions, if the day has any.
    pub dot: Option<u32>,
}

/// The selected day is filled and framed, today only framed; days of the
/// neighbouring months are faint, Fridays and holidays in the holiday
/// colour; the dot takes the holiday colour on holidays.
pub open spec fn spec_cell_style(c: GridCell, p: Palette) -> CellStyle {
    CellStyle {
        fill: if c.is_selected { Some(p.selected) } else { None },
        outline: if c.is_selected || c.is_today { Some(p.accent) } else { None },
        day: if !c.in_current_month {
            p.faint
        } else if c.is_friday || c.official_holiday {
            p.holiday
        } else {
            p.text
        },
        secondary: if c.in_current_month { p.muted } else { p.faint },
        dot: if c.has_events {
            Some(if c.official_holiday { p.holiday } else { p.event })
        } else {
            None
        },
    }
}

pub fn cell_style(cell: &GridCell, palette: &Palette) -> (r: CellStyle)
    ensures
        r == spec_cell_style(*cell, *palette),
{
    let day = if !cell.in_current_month {
        palette.faint
    } else if cell.is_friday || cell.official_holiday {
        palette.holiday
    } else {
        palette.text
    };
    CellStyle {
        fill: if cell.is_selected { Some(palette.selected) } else { None },
        outline: if cell.is_selected || cell.is_today { Some(palette.accent) } else { None },
        day,
        secondary: if cell.in_current_month { palette.muted } else { palette.faint },
        dot: if cell.has_events {
            Some(if cell.official_holiday { palette.holiday } else { palette.event })
        } else {
            None
        },
    }
}

/// The "go to today" button is shown in the month view unless today is
/// already shown and selected.
pub open spec fn spec_today_button_shown(s: AppState) -> bool {
    let t = spec_today_main(s);
    !s.settings.compact_day && !(s.year == t.year && s.month == t.month && s.selected_day == Some(t.day))
}

pub fn today_button_shown(app: &AppState) -> (r: bool)
    requires
        !app.settings.compact_day ==> today_ok(*app),
    ensures
        r == spec_today_button_shown(*app),
{
    if app.settings.compact_day {
        return false;
    }
    let today = app.today_main();
    let active = app.year == today.year && app.month == today.month && match app.selected_day {
        Some(d) => d == today.day,
        None => false,
    };
    !active
}

/// The colours of an occasion in the list: its day badge and its title, in
/// the holiday colour for official holidays.
pub open spec fn spec_occasion_colors(official_holiday: bool, p: Palette) -> (u32, u32) {
    if official_holiday { (p.holiday, p.holiday) } else { (p.event, p.text) }
}

pub fn occasion_colors(official_holiday: bool, palette: &Palette) -> (r: (u32, u32))
    ensures
        r == spec_occasion_colors(official_holiday, *palette),
{
    if official_holiday {
        (palette.holiday, palette.holiday)
    } else {
        (palette.event, palette.text)
    }
}

/// The day the tray icon shows: today's Jalali day when the tray shows the
/// day, none when it shows the program's icon.
pub open spec fn spec_tray_icon_day(s: AppState) -> Option<u32> {
    if s.settings.tray_day_icon {
        Some(spec_from_gregorian(CalendarKind::Jalali, s.today_gregorian).day)
    } else {
        None
    }
}

pub fn tray_icon_day(app: &AppState) -> (r: Option<u32>)
    requires
        app.settings.tray_day_icon ==> from_gregorian_ok(CalendarKind::Jalali, app.today_gregorian),
    ensures
        r == spec_tray_icon_day(*app),
{
    if app.settings.tray_day_icon {
        Some(from_gregorian(CalendarKind::Jalali, app.today_gregorian).day)
    } else {
        None
    }
}

// ---------------------------------------------------------------------------
// The settings view
// ---------------------------------------------------------------------------

/// A switch of the settings view.
#[derive(Clone, Copy, Debug, PartialEq, Eq, Structural)]
pub struct SwitchStyle {
    pub track: u32,
    pub knob: u32,
    /// The knob's left edge in unscaled window coordinates.
    pub knob_left: i32,
}

/// A switch that is on has an accent track and its knob on the right.
pub open spec fn spec_switch_style(on: bool, p: Palette) -> SwitchStyle {
    if on {
        SwitchStyle { track: p.accent, knob: p.accent_text, knob_left: 61 }
    } else {
        SwitchStyle { track: p.faint, knob: p.surface, knob_left: 37 }
    }
}

pub fn switch_style(on: bool, palette: &Palette) -> (r: SwitchStyle)
    ensures
        r == spec_switch_style(on, *palette),
{
    if on {
        SwitchStyle { track: palette.accent, knob: palette.accent_text, knob_left: 61 }
    } else {
        SwitchStyle { track: palette.faint, knob: palette.surface, knob_left: 37 }
    }
}

/// The switches of the settings view, top to bottom: each row's top edge,
/// its label and whether it is on.
pub open spec fn spec_settings_switches(s: Settings) -> Seq<(i32, Seq<char>, bool)> {
    seq![
        (218i32, "چیدمان تقویم از راست به چپ"@, s.calendar_rtl),
        (262i32, "نمایش تاریخ شمسی"@, s.show_jalali),
        (306i32, "نمایش تاریخ میلادی"@, s.show_gregorian),
        (350i32, "نمایش تاریخ قمری"@, s.show_hijri),
        (394i32, "نمایش عنوان تقویم‌های جانبی"@, s.show_subtitles),
        (438i32, "نمایش بخش مناسبت‌ها"@, s.show_events),
        (482i32, "نمایش تاریخ کامل در Tooltip"@, s.show_tray_date),
        (526i32, "بروزرسانی خودکار"@, s.auto_update),
        (570i32, "نمایش شماره روز روی آیکن Tray"@, s.tray_day_icon),
        (614i32, "نمایش شماره انگلیسی در System Tray"@, s.tray_english_digits),
        (658i32, "نمایش روزانه (بدون تقویم)"@, s.compact_day),
        (702i32, "اجرا همراه با ویندوز"@, s.autostart),
    ]
}

pub fn settings_switches(settings: &Settings) -> (r: Vec<(i32, &'static str, bool)>)
    ensures
        r@.len() == spec_settings_switches(*settings).len(),
        forall|i: int|
            0 <= i < r@.len() ==> (#[trigger] r@[i]).0 == spec_settings_switches(*settings)[i].0
                && r@[i].1@ == spec_settings_switches(*settings)[i].1 && r@[i].2
                == spec_settings_switches(*settings)[i].2,
{
    let s = settings;
    let r = vec![
        (218i32, "چیدمان تقویم از راست به چپ", s.calendar_rtl),
        (262i32, "نمایش تاریخ شمسی", s.show_jalali),
        (306i32, "نمایش تاریخ میلادی", s.show_gregorian),
        (350i32, "نمایش تاریخ قمری", s.show_hijri),
        (394i32, "نمایش عنوان تقویم‌های جانبی", s.show_subtitles),
        (438i32, "نمایش بخش مناسبت‌ها", s.show_events),
        (482i32, "نمایش تاریخ کامل در Tooltip", s.show_tray_date),
        (526i32, "بروزرسانی خودکار", s.auto_update),
        (570i32, "نمایش شماره روز روی آیکن Tray", s.tray_day_icon),
        (614i32, "نمایش شماره انگلیسی در System Tray", s.tray_english_digits),
        (658i32, "نمایش روزانه (بدون تقویم)", s.compact_day),
        (702i32, "اجرا همراه با ویندوز", s.autostart),
    ];
    assert(r@ =~= seq![
        (218i32, "چیدمان تقویم از راست به چپ", s.calendar_rtl),
        (262i32, "نمایش تاریخ شمسی", s.show_jalali),
        (306i32, "نمایش تاریخ میلادی", s.show_gregorian),
        (350i32, "نمایش تاریخ قمری", s.show_hijri),
        (394i32, "نمایش عنوان تقویم‌های جانبی", s.show_subtitles),
        (438i32, "نمایش بخش مناسبت‌ها", s.show_events),
        (482i32, "نمایش تاریخ کامل در Tooltip", s.show_tray_date),
        (526i32, "بروزرسانی خودکار", s.auto_update),
        (570i32, "نمایش شماره روز روی آیکن Tray", s.tray_day_icon),
        (614i32, "نمایش شماره انگلیسی در System Tray", s.tray_english_digits),
        (658i32, "نمایش روزانه (بدون تقویم)", s.compact_day),
        (702i32, "اجرا همراه با ویندوز", s.autostart),
    ]);
    r
}

/// The scale shown between the scale row's buttons, such as `٪۱۰۰`.
pub open spec fn spec_scale_text(ui_scale: u32) -> Seq<char> {
    "٪"@ + to_persian_digits(int_decimal(ui_scale as int))
}

pub fn scale_text(ui_scale: u32) -> (r: String)
    ensures
        r@ == spec_scale_text(ui_scale),
{
    let mut text = String::from_str("٪");
    let digits = persian_number(ui_scale as i64);
    text.append(digits.as_str());
    text
}

/// The install and uninstall buttons of the settings view.
#[derive(Clone, Copy, Debug)]
pub struct InstallButtons {
    pub label: &'static str,
    pub fill: u32,
    pub text: u32,
    pub remove_fill: u32,
    pub remove_text: u32,
}

/// The install button's label for each state of the installed copy.
pub open spec fn spec_install_button_label(inst: InstallationState) -> Seq<char> {
    match inst {
        InstallationState::NotInstalled => "نصب در Program Files"@,
        InstallationState::InstalledCurrent => "نصب شده"@,
        InstallationState::UpdateAvailable => "بروزرسانی نسخه نصب‌شده"@,
        InstallationState::InstalledOtherUpToDate => "نسخه نصب‌شده بروز است"@,
    }
}

/// The install button stands out when installing does something; the
/// uninstall button when there is a copy to remove.
pub open spec fn install_buttons_are(b: InstallButtons, inst: InstallationState, p: Palette) -> bool {
    let offered = inst == InstallationState::NotInstalled || inst == InstallationState::UpdateAvailable;
    let installed = inst != InstallationState::NotInstalled;
    &&& b.label@ == spec_install_button_label(inst)
    &&& b.fill == if offered { p.accent } else { p.surface_alt }
    &&& b.text == if offered { p.accent_text } else { p.muted }
    &&& b.remove_fill == if installed { p.holiday } else { p.surface_alt }
    &&& b.remove_text == if installed { p.accent_text } else { p.faint }
}

pub fn install_buttons(inst: InstallationState, palette: &Palette) -> (r: InstallButtons)
    ensures
        install_buttons_are(r, inst, *palette),
{
    let label = match inst {
        InstallationState::NotInstalled => "نصب در Program Files",
        InstallationState::InstalledCurrent => "نصب شده",
        InstallationState::UpdateAvailable => "بروزرسانی نسخه نصب‌شده",
        InstallationState::InstalledOtherUpToDate => "نسخه نصب‌شده بروز است",
    };
    let offered = match inst {
        InstallationState::NotInstalled | InstallationState::UpdateAvailable => true,
        _ => false,
    };
    let installed = match inst {
        InstallationState::NotInstalled => false,
        _ => true,
    };
    InstallButtons {
        label,
        fill: if offered { palette.accent } else { palette.surface_alt },
        text: if offered { palette.accent_text } else { palette.muted },
        remove_fill: if installed { palette.holiday } else { palette.surface_alt },
        remove_text: if installed { palette.accent_text } else { palette.faint },
    }
}

// ---------------------------------------------------------------------------
// The settings window's rows
// ---------------------------------------------------------------------------

/// The background and label colours of a row's `index`-th button: the
/// chosen button of a usable row stands out, the labels of an unusable row
/// are muted.
pub open spec fn spec_button_colors(row: Row, index: int, p: Palette) -> (u32, u32) {
    let active = row.selected == Some(index as usize) && row.enabled;
    let fg = if row.enabled { p.text } else { p.muted };
    if active { (p.accent, p.accent_text) } else { (p.surface_alt, fg) }
}

pub fn button_colors(row: &Row, index: usize, palette: &Palette) -> (r: (u32, u32))
    ensures
        r == spec_button_colors(*row, index as int, *palette),
{
    let active = row.selected == Some(index) && row.enabled;
    let fg = if row.enabled { palette.text } else { palette.muted };
    if active {
        (palette.accent, palette.accent_text)
    } else {
        (palette.surface_alt, fg)
    }
}

/// A row's switch: its track and knob colours, and whether the knob sits on
/// the right (on). A switch of an unusable row is drawn off-coloured.
pub open spec fn spec_row_switch(row: Row, p: Palette) -> (u32, u32, bool) {
    let on = row.selected == Some(1usize);
    if on && row.enabled { (p.accent, p.accent_text, on) } else { (p.surface_alt, p.muted, on) }
}

pub fn row_switch(row: &Row, palette: &Palette) -> (r: (u32, u32, bool))
    ensures
        r == spec_row_switch(*row, *palette),
{
    let on = row.selected == Some(1usize);
    if on && row.enabled {
        (palette.accent, palette.accent_text, on)
    } else {
        (palette.surface_alt, palette.muted, on)
    }
}

// ---------------------------------------------------------------------------
// The about box and the confirmation box
// ---------------------------------------------------------------------------

/// A control of the about box.
#[derive(Clone, Copy, Debug, PartialEq, Eq, Structural)]
pub enum AboutHit {
    Website,
    Github,
    Update,
    Close,
}

/// The about box's control at a point in unscaled window coordinates.
pub open spec fn spec_about_hit(x: int, y: int) -> Option<AboutHit> {
    if 30 <= x <= 350 && 54 <= y <= 96 {
        Some(AboutHit::Website)
    } else if 30 <= x <= 350 && 96 <= y <= 136 {
        Some(AboutHit::Github)
    } else if 60 <= x <= 320 && 178 <= y <= 232 {
        Some(AboutHit::Update)
    } else if 100 <= x <= 280 && 236 <= y <= 288 {
        Some(AboutHit::Close)
    } else {
        None
    }
}

pub fn about_hit(x: i32, y: i32) -> (r: Option<AboutHit>)
    ensures
        r == spec_about_hit(x as int, y as int),
{
    if 30 <= x && x <= 350 && 54 <= y && y <= 96 {
        Some(AboutHit::Website)
    } else if 30 <= x && x <= 350 && 96 <= y && y <= 136 {
        Some(AboutHit::Github)
    } else if 60 <= x && x <= 320 && 178 <= y && y <= 232 {
        Some(AboutHit::Update)
    } else if 100 <= x && x <= 280 && 236 <= y && y <= 288 {
        Some(AboutHit::Close)
    } else {
        None
    }
}

/// The confirmation box's answer at a point in unscaled window coordinates:
/// `true` on the accept button, `false` on the cancel button.
pub open spec fn spec_confirm_hit(x: int, y: int) -> Option<bool> {
    if 226 <= x <= 404 && 292 <= y <= 332 {
        Some(true)
    } else if 26 <= x <= 204 && 292 <= y <= 332 {
        Some(false)
    } else {
        None
    }
}

pub fn confirm_hit(x: i32, y: i32) -> (r: Option<bool>)
    ensures
        r == spec_confirm_hit(x as int, y as int),
{
    if 226 <= x && x <= 404 && 292 <= y && y <= 332 {
        Some(true)
    } else if 26 <= x && x <= 204 && 292 <= y && y <= 332 {
        Some(false)
    } else {
        None
    }
}

/// The confirmation box's answer to a key: Enter accepts, Escape cancels.
pub open spec fn spec_confirm_key(key: u32) -> Option<bool> {
    if key == 0x0D {
        Some(true)
    } else if key == 0x1B {
        Some(false)
    } else {
        None
    }
}

pub fn confirm_key(key: u32) -> (r: Option<bool>)
    ensures
        r == spec_confirm_key(key),
{
    if key == 0x0D {
        Some(true)
    } else if key == 0x1B {
        Some(false)
    } else {
        None
    }
}

/// The accept button's background and label colours: white on the holiday
/// colour for a destructive action.
pub open spec fn spec_accept_colors(destructive: bool, p: Palette) -> (u32, u32) {
    if destructive { (p.holiday, spec_rgb(255, 255, 255)) } else { (p.accent, p.accent_text) }
}

pub fn accept_colors(destructive: bool, palette: &Palette) -> (r: (u32, u32))
    ensures
        r == spec_accept_colors(destructive, *palette),
{
    if destructive {
        (palette.holiday, rgb(255, 255, 255))
    } else {
        (palette.accent, palette.accent_text)
    }
}

/// The bottom of the confirmation box's message: shorter when a reminder is
/// shown below it.
pub open spec fn spec_message_bottom(has_reminder: bool) -> i32 {
    if has_reminder { 188 } else { 276 }
}

pub fn message_bottom(has_reminder: bool) -> (r: i32)
    ensures
        r == spec_message_bottom(has_reminder),
{
    if has_reminder {
        188
    } else {
        276
    }
}

} // verus!
