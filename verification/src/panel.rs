//! The settings panel: the rows of each page, the controls that a click or
//! the keyboard reaches, and what choosing a control does to the settings.
use vstd::prelude::*;
use crate::calendar::CalendarKind;
use crate::clicks::InstallationState;
use crate::layout::{Rect, contains, control_rect, control_rect_ok, spec_contains, spec_control_rect, spec_row_top, spec_unscaled, unscaled};
use crate::settings::{Settings, Theme};
use crate::theme::{ThemeColors, colors_of, hex, spec_hex, spec_is_custom};

verus! {

/// What a control of the panel does.
#[derive(Clone, Copy, Debug, PartialEq, Eq, Structural)]
pub enum Action {
    Theme,
    Primary,
    Accent,
    Scale,
    ThemeReset,
    Calendar,
    Direction,
    Layout,
    Jalali,
    Gregorian,
    Hijri,
    Subtitles,
    Events,
    TrayContent,
    Digits,
    TrayText,
    TrayBackground,
    Tooltip,
    Autostart,
    AutoUpdate,
    CheckUpdate,
    Install,
    Uninstall,
    Reset,
}

/// A row of the panel: a title, a detail line, and its choice buttons or
/// its switch.
#[derive(Clone, Debug)]
pub struct Row {
    pub title: &'static str,
    pub detail: String,
    pub options: Vec<String>,
    /// The chosen button, or for a switch 1 when on and 0 when off; none for
    /// a plain button.
    pub selected: Option<usize>,
    pub action: Action,
    pub enabled: bool,
    pub toggle: bool,
    /// A colour shown beside the button's label.
    pub swatch: Option<[u8; 3]>,
}

/// The labels of a row's buttons.
pub open spec fn labels_of(r: Row) -> Seq<Seq<char>> {
    r.options@.map_values(|o: String| o@)
}

/// A row of choice buttons with the given labels, the `selected`-th chosen.
pub fn choice(title: &'static str, detail: &str, options: &[&str], selected: usize, action: Action) -> (r: Row)
    ensures
        r.title@ == title@,
        r.detail@ == detail@,
        labels_of(r) == options@.map_values(|o: &str| o@),
        r.selected == Some(selected),
        r.action == action,
        r.enabled,
        !r.toggle,
        r.swatch is None,
{
    let mut labels: Vec<String> = Vec::new();
    let mut i: usize = 0;
    while i < options.len()
        invariant
            i <= options@.len(),
            labels@.len() == i,
            forall|k: int| 0 <= k < i ==> #[trigger] labels@[k]@ == options@[k]@,
        decreases options@.len() - i,
    {
        labels.push(String::from_str(options[i]));
        i += 1;
    }
    let r = Row {
        title,
        detail: String::from_str(detail),
        options: labels,
        selected: Some(selected),
        action,
        enabled: true,
        toggle: false,
        swatch: None,
    };
    assert(labels_of(r) =~= options@.map_values(|o: &str| o@));
    r
}

/// A switch row, on when `value`.
pub fn toggle(title: &'static str, detail: &str, value: bool, action: Action) -> (r: Row)
    ensures
        r.title@ == title@,
        r.detail@ == detail@,
        labels_of(r) == seq![""@],
        r.selected == Some(if value { 1usize } else { 0usize }),
        r.action == action,
        r.enabled,
        r.toggle,
        r.swatch is None,
{
    let mut r = choice(title, detail, &[""], if value { 1 } else { 0 }, action);
    r.toggle = true;
    assert(labels_of(r) =~= seq![""@]);
    r
}

/// A row with one button.
pub fn button(title: &'static str, detail: &str, text: &str, action: Action) -> (r: Row)
    ensures
        r.title@ == title@,
        r.detail@ == detail@,
        labels_of(r) == seq![text@],
        r.selected is None,
        r.action == action,
        r.enabled,
        !r.toggle,
        r.swatch is None,
{
    let mut r = choice(title, detail, &[text], 0, action);
    r.selected = None;
    assert(labels_of(r) =~= seq![text@]);
    r
}

/// The actions of the rows of a page, top to bottom.
pub open spec fn page_actions(page: int) -> Seq<Action> {
    if page == 0 {
        seq![Action::Theme, Action::Primary, Action::Accent, Action::Scale, Action::ThemeReset]
    } else if page == 1 {
        seq![Action::Layout, Action::Calendar, Action::Direction, Action::Jalali, Action::Gregorian, Action::Hijri, Action::Subtitles, Action::Events]
    } else if page == 2 {
        seq![Action::TrayContent, Action::Digits, Action::TrayText, Action::TrayBackground, Action::Tooltip]
    } else if page == 3 {
        seq![Action::Autostart, Action::AutoUpdate, Action::CheckUpdate]
    } else {
        seq![Action::Install, Action::Uninstall, Action::Reset]
    }
}

fn page_action_list(page: usize) -> (r: Vec<Action>)
    ensures
        r@ == page_actions(page as int),
{
    if page == 0 {
        vec![Action::Theme, Action::Primary, Action::Accent, Action::Scale, Action::ThemeReset]
    } else if page == 1 {
        vec![Action::Layout, Action::Calendar, Action::Direction, Action::Jalali, Action::Gregorian, Action::Hijri, Action::Subtitles, Action::Events]
    } else if page == 2 {
        vec![Action::TrayContent, Action::Digits, Action::TrayText, Action::TrayBackground, Action::Tooltip]
    } else if page == 3 {
        vec![Action::Autostart, Action::AutoUpdate, Action::CheckUpdate]
    } else {
        vec![Action::Install, Action::Uninstall, Action::Reset]
    }
}

/// The title of a row.
pub open spec fn row_title(a: Action) -> Seq<char> {
    match a {
        Action::Theme => "پوسته"@,
        Action::Primary => "رنگ اصلی (Primary)"@,
        Action::Accent => "رنگ تأکیدی (Accent)"@,
        Action::Scale => "اندازهٔ رابط"@,
        Action::ThemeReset => "رنگ‌های پیش‌فرض"@,
        Action::Calendar => "تقویم اصلی"@,
        Action::Direction => "چیدمان تقویم"@,
        Action::Layout => "حالت نمایش"@,
        Action::Jalali => "تاریخ شمسی"@,
        Action::Gregorian => "تاریخ میلادی"@,
        Action::Hijri => "تاریخ قمری"@,
        Action::Subtitles => "عنوان تقویم‌های جانبی"@,
        Action::Events => "مناسبت‌ها"@,
        Action::TrayContent => "محتوای آیکون"@,
        Action::Digits => "نوع ارقام"@,
        Action::TrayText => "رنگ متن"@,
        Action::TrayBackground => "زمینهٔ آیکون"@,
        Action::Tooltip => "تاریخ کامل هنگام مکث"@,
        Action::Autostart => "اجرا همراه ویندوز"@,
        Action::AutoUpdate => "بروزرسانی خودکار"@,
        Action::CheckUpdate => "بررسی نسخهٔ جدید"@,
        Action::Install => "نصب برنامه"@,
        Action::Uninstall => "حذف برنامه"@,
        Action::Reset => "بازنشانی تنظیمات"@,
    }
}

/// The detail line of a row, before it depends on the settings.
pub open spec fn base_detail(a: Action) -> Seq<char> {
    match a {
        Action::Theme => "رنگ‌های پیش‌فرض پوسته"@,
        Action::Primary => "پس‌زمینه و سطوح برنامه"@,
        Action::Accent => "انتخاب‌ها و دکمه‌های فعال"@,
        Action::Scale => "مقیاس تقویم و تنظیمات"@,
        Action::ThemeReset => "فقط رنگ‌های همین پوسته بازنشانی می‌شوند"@,
        Action::Calendar => "این تقویم همیشه نمایش داده می‌شود"@,
        Action::Direction => "جهت نمایش روزهای هفته"@,
        Action::Layout => "تقویم کامل یا نمای جمع‌وجور روزانه"@,
        Action::Jalali => "نمایش به‌عنوان تقویم جانبی"@,
        Action::Gregorian => "نمایش به‌عنوان تقویم جانبی"@,
        Action::Hijri => "نمایش به‌عنوان تقویم جانبی"@,
        Action::Subtitles => "نام ماه کنار تاریخ‌های جانبی"@,
        Action::Events => "رویدادهای مربوط به روز انتخاب‌شده"@,
        Action::TrayContent => "آیکون برنامه یا شمارهٔ روز شمسی"@,
        Action::Digits => "زبان اعداد روی آیکون"@,
        Action::TrayText => "رنگ ارقام روی آیکون"@,
        Action::TrayBackground => "رنگی از رنگ تأکیدی (Accent) استفاده می‌کند"@,
        Action::Tooltip => "نمایش تاریخ با قرار دادن ماوس روی آیکون"@,
        Action::Autostart => "شروع خودکار پس از ورود به ویندوز"@,
        Action::AutoUpdate => "دریافت و نصب خودکار نسخه‌های جدید"@,
        Action::CheckUpdate => "بررسی دستی بروزرسانی برنامه"@,
        Action::Install => "نصب در پوشهٔ Program Files"@,
        Action::Uninstall => "حذف نسخهٔ نصب‌شده از ویندوز"@,
        Action::Reset => "بازگردانی همهٔ تنظیمات به حالت اولیه"@,
    }
}

fn row_text(a: Action) -> (r: (&'static str, &'static str))
    ensures
        r.0@ == row_title(a),
        r.1@ == base_detail(a),
{
    match a {
        Action::Theme => ("پوسته", "رنگ‌های پیش‌فرض پوسته"),
        Action::Primary => ("رنگ اصلی (Primary)", "پس‌زمینه و سطوح برنامه"),
        Action::Accent => ("رنگ تأکیدی (Accent)", "انتخاب‌ها و دکمه‌های فعال"),
        Action::Scale => ("اندازهٔ رابط", "مقیاس تقویم و تنظیمات"),
        Action::ThemeReset => ("رنگ‌های پیش‌فرض", "فقط رنگ‌های همین پوسته بازنشانی می‌شوند"),
        Action::Calendar => ("تقویم اصلی", "این تقویم همیشه نمایش داده می‌شود"),
        Action::Direction => ("چیدمان تقویم", "جهت نمایش روزهای هفته"),
        Action::Layout => ("حالت نمایش", "تقویم کامل یا نمای جمع‌وجور روزانه"),
        Action::Jalali => ("تاریخ شمسی", "نمایش به‌عنوان تقویم جانبی"),
        Action::Gregorian => ("تاریخ میلادی", "نمایش به‌عنوان تقویم جانبی"),
        Action::Hijri => ("تاریخ قمری", "نمایش به‌عنوان تقویم جانبی"),
        Action::Subtitles => ("عنوان تقویم‌های جانبی", "نام ماه کنار تاریخ‌های جانبی"),
        Action::Events => ("مناسبت‌ها", "رویدادهای مربوط به روز انتخاب‌شده"),
        Action::TrayContent => ("محتوای آیکون", "آیکون برنامه یا شمارهٔ روز شمسی"),
        Action::Digits => ("نوع ارقام", "زبان اعداد روی آیکون"),
        Action::TrayText => ("رنگ متن", "رنگ ارقام روی آیکون"),
        Action::TrayBackground => ("زمینهٔ آیکون", "رنگی از رنگ تأکیدی (Accent) استفاده می‌کند"),
        Action::Tooltip => ("تاریخ کامل هنگام مکث", "نمایش تاریخ با قرار دادن ماوس روی آیکون"),
        Action::Autostart => ("اجرا همراه ویندوز", "شروع خودکار پس از ورود به ویندوز"),
        Action::AutoUpdate => ("بروزرسانی خودکار", "دریافت و نصب خودکار نسخه‌های جدید"),
        Action::CheckUpdate => ("بررسی نسخهٔ جدید", "بررسی دستی بروزرسانی برنامه"),
        Action::Install => ("نصب برنامه", "نصب در پوشهٔ Program Files"),
        Action::Uninstall => ("حذف برنامه", "حذف نسخهٔ نصب‌شده از ویندوز"),
        Action::Reset => ("بازنشانی تنظیمات", "بازگردانی همهٔ تنظیمات به حالت اولیه"),
    }
}

/// The button labels of a row that do not depend on the settings.
pub open spec fn fixed_labels(a: Action) -> Seq<Seq<char>> {
    match a {
        Action::Theme => seq!["تیره"@, "روشن"@],
        Action::Scale => seq!["۸۰٪"@, "۹۰٪"@, "۱۰۰٪"@, "۱۱۰٪"@, "۱۲۵٪"@],
        Action::ThemeReset => seq!["بازگردانی رنگ‌ها"@],
        Action::Calendar => seq!["شمسی"@, "میلادی"@, "قمری"@],
        Action::Direction => seq!["راست به چپ"@, "چپ به راست"@],
        Action::Layout => seq!["تقویم کامل"@, "روزانه"@],
        Action::Jalali => seq![""@],
        Action::Gregorian => seq![""@],
        Action::Hijri => seq![""@],
        Action::Subtitles => seq![""@],
        Action::Events => seq![""@],
        Action::TrayContent => seq!["آیکون برنامه"@, "شماره روز"@],
        Action::Digits => seq!["فارسی"@, "انگلیسی"@],
        Action::TrayText => seq!["سفید"@, "مشکی"@],
        Action::TrayBackground => seq!["شفاف"@, "رنگی (Accent)"@],
        Action::Tooltip => seq![""@],
        Action::Autostart => seq![""@],
        Action::AutoUpdate => seq![""@],
        Action::CheckUpdate => seq!["بررسی بروزرسانی"@],
        Action::Uninstall => seq!["حذف برنامه"@],
        Action::Reset => seq!["بازنشانی…"@],
        _ => Seq::empty(),
    }
}

/// Index of the interface scale among 80, 90, 100, 110 and 125 percent; that
/// of 100% for any other scale.
pub open spec fn scale_index(scale: u32) -> usize {
    if scale == 80 {
        0
    } else if scale == 90 {
        1
    } else if scale == 100 {
        2
    } else if scale == 110 {
        3
    } else if scale == 125 {
        4
    } else {
        2
    }
}

pub open spec fn flag(v: bool) -> usize {
    if v {
        1
    } else {
        0
    }
}

/// The chosen button of a row (for a switch, whether it is on).
pub open spec fn row_selected(s: Settings, a: Action) -> Option<usize> {
    match a {
        Action::Theme => Some(flag(s.theme == Theme::Light)),
        Action::Scale => Some(scale_index(s.ui_scale)),
        Action::Layout => Some(flag(s.compact_day)),
        Action::Calendar => Some(
            match s.main_calendar {
                CalendarKind::Jalali => 0usize,
                CalendarKind::Gregorian => 1usize,
                CalendarKind::Hijri => 2usize,
            },
        ),
        Action::Direction => Some(flag(!s.calendar_rtl)),
        Action::Jalali => Some(flag(s.show_jalali || s.main_calendar == CalendarKind::Jalali)),
        Action::Gregorian => Some(flag(s.show_gregorian || s.main_calendar == CalendarKind::Gregorian)),
        Action::Hijri => Some(flag(s.show_hijri || s.main_calendar == CalendarKind::Hijri)),
        Action::Subtitles => Some(flag(s.show_subtitles)),
        Action::Events => Some(flag(s.show_events)),
        Action::TrayContent => Some(flag(s.tray_day_icon)),
        Action::Digits => Some(flag(s.tray_english_digits)),
        Action::TrayText => Some(flag(!s.tray_text_white)),
        Action::TrayBackground => Some(flag(s.tray_accent_background)),
        Action::Tooltip => Some(flag(s.show_tray_date)),
        Action::Autostart => Some(flag(s.autostart)),
        Action::AutoUpdate => Some(flag(s.auto_update)),
        _ => None,
    }
}

/// The row of the main calendar among the secondary-calendar switches.
pub open spec fn is_main_row(s: Settings, a: Action) -> bool {
    ||| a == Action::Jalali && s.main_calendar == CalendarKind::Jalali
    ||| a == Action::Gregorian && s.main_calendar == CalendarKind::Gregorian
    ||| a == Action::Hijri && s.main_calendar == CalendarKind::Hijri
}

/// The detail line of a row: the theme row says whether custom colours are
/// in effect, the main calendar's switch that it is always shown.
pub open spec fn row_detail(s: Settings, a: Action) -> Seq<char> {
    if a == Action::Theme && spec_is_custom(colors_of(s)) {
        "رنگ‌های سفارشی فعال‌اند"@
    } else if is_main_row(s, a) {
        "تقویم اصلی؛ همیشه نمایش داده می‌شود"@
    } else {
        base_detail(a)
    }
}

/// The label of the install button.
pub open spec fn install_label(inst: InstallationState) -> Seq<char> {
    match inst {
        InstallationState::NotInstalled => "نصب برنامه"@,
        InstallationState::UpdateAvailable => "بروزرسانی نصب"@,
        _ => "نصب شده"@,
    }
}

/// The button labels of a row: the colour buttons show their colour in
/// `#RRGGBB`, the install button what installing would do.
pub open spec fn row_labels(s: Settings, inst: InstallationState, a: Action) -> Seq<Seq<char>> {
    match a {
        Action::Primary => seq![spec_hex(colors_of(s).primary)],
        Action::Accent => seq![spec_hex(colors_of(s).accent)],
        Action::Install => seq![install_label(inst)],
        _ => fixed_labels(a),
    }
}

/// Whether a row can be used: not the main calendar's switch, not the tray
/// digit options while the tray shows the program icon, install only when
/// there is something to install, uninstall only when installed.
pub open spec fn row_enabled(s: Settings, inst: InstallationState, a: Action) -> bool {
    match a {
        Action::Jalali | Action::Gregorian | Action::Hijri => !is_main_row(s, a),
        Action::Digits | Action::TrayText | Action::TrayBackground => s.tray_day_icon,
        Action::Install => inst == InstallationState::NotInstalled || inst
            == InstallationState::UpdateAvailable,
        Action::Uninstall => inst != InstallationState::NotInstalled,
        _ => true,
    }
}

/// Whether a row is a switch.
pub open spec fn row_toggle(a: Action) -> bool {
    match a {
        Action::Jalali | Action::Gregorian | Action::Hijri | Action::Subtitles | Action::Events
        | Action::Tooltip | Action::Autostart | Action::AutoUpdate => true,
        _ => false,
    }
}

/// The colour shown on a row's button.
pub open spec fn row_swatch(s: Settings, a: Action) -> Option<[u8; 3]> {
    match a {
        Action::Primary => Some(colors_of(s).primary),
        Action::Accent => Some(colors_of(s).accent),
        _ => None,
    }
}

/// `r` is the row of action `a` for the settings `s`.
pub open spec fn row_is(r: Row, s: Settings, inst: InstallationState, a: Action) -> bool {
    &&& r.action == a
    &&& r.title@ == row_title(a)
    &&& r.detail@ == row_detail(s, a)
    &&& labels_of(r) == row_labels(s, inst, a)
    &&& r.selected == row_selected(s, a)
    &&& r.enabled == row_enabled(s, inst, a)
    &&& r.toggle == row_toggle(a)
    &&& r.swatch == row_swatch(s, a)
}

fn appearance_row(s: &Settings, colors: ThemeColors, inst: InstallationState, a: Action) -> (r: Row)
    requires
        colors == colors_of(*s),
        a == Action::Theme || a == Action::Primary || a == Action::Accent || a == Action::Scale || a == Action::ThemeReset,
    ensures
        row_is(r, *s, inst, a),
{
    let (title, detail) = row_text(a);
    match a {
        Action::Theme => {
            let mut r = choice(title, detail, &["تیره", "روشن"], match s.theme { Theme::Light => 1, Theme::Dark => 0 }, a);
            if colors.is_custom() {
                r.detail = String::from_str("رنگ‌های سفارشی فعال‌اند");
            }
            assert(labels_of(r) =~= fixed_labels(a));
            r
        },
        Action::Primary => {
            let label = hex(colors.primary);
            let mut r = button(title, detail, label.as_str(), a);
            r.swatch = Some(colors.primary);
            r
        },
        Action::Accent => {
            let label = hex(colors.accent);
            let mut r = button(title, detail, label.as_str(), a);
            r.swatch = Some(colors.accent);
            r
        },
        Action::Scale => {
            let r = choice(title, detail, &["۸۰٪", "۹۰٪", "۱۰۰٪", "۱۱۰٪", "۱۲۵٪"], if s.ui_scale == 80 { 0 } else if s.ui_scale == 90 { 1 } else if s.ui_scale == 100 { 2 } else if s.ui_scale == 110 { 3 } else if s.ui_scale == 125 { 4 } else { 2 }, a);
            assert(labels_of(r) =~= fixed_labels(a));
            r
        },
        Action::ThemeReset => button(title, detail, "بازگردانی رنگ‌ها", a),
        _ => button(title, detail, "", a),
    }
}

fn calendar_row(s: &Settings, colors: ThemeColors, inst: InstallationState, a: Action) -> (r: Row)
    requires
        colors == colors_of(*s),
        a == Action::Layout || a == Action::Calendar || a == Action::Direction || a == Action::Jalali || a == Action::Gregorian || a == Action::Hijri || a == Action::Subtitles || a == Action::Events,
    ensures
        row_is(r, *s, inst, a),
{
    let (title, detail) = row_text(a);
    match a {
        Action::Layout => {
            let r = choice(title, detail, &["تقویم کامل", "روزانه"], if s.compact_day { 1 } else { 0 }, a);
            assert(labels_of(r) =~= fixed_labels(a));
            r
        },
        Action::Calendar => {
            let r = choice(title, detail, &["شمسی", "میلادی", "قمری"], match s.main_calendar { CalendarKind::Jalali => 0, CalendarKind::Gregorian => 1, CalendarKind::Hijri => 2 }, a);
            assert(labels_of(r) =~= fixed_labels(a));
            r
        },
        Action::Direction => {
            let r = choice(title, detail, &["راست به چپ", "چپ به راست"], if s.calendar_rtl { 0 } else { 1 }, a);
            assert(labels_of(r) =~= fixed_labels(a));
            r
        },
        Action::Jalali => {
            let mut r = toggle(title, detail, s.show_jalali || s.main_calendar == CalendarKind::Jalali, a);
            if s.main_calendar == CalendarKind::Jalali {
                r.enabled = false;
                r.detail = String::from_str("تقویم اصلی؛ همیشه نمایش داده می‌شود");
            }
            r
        },
        Action::Gregorian => {
            let mut r = toggle(title, detail, s.show_gregorian || s.main_calendar == CalendarKind::Gregorian, a);
            if s.main_calendar == CalendarKind::Gregorian {
                r.enabled = false;
                r.detail = String::from_str("تقویم اصلی؛ همیشه نمایش داده می‌شود");
            }
            r
        },
        Action::Hijri => {
            let mut r = toggle(title, detail, s.show_hijri || s.main_calendar == CalendarKind::Hijri, a);
            if s.main_calendar == CalendarKind::Hijri {
                r.enabled = false;
                r.detail = String::from_str("تقویم اصلی؛ همیشه نمایش داده می‌شود");
            }
            r
        },
        Action::Subtitles => toggle(title, detail, s.show_subtitles, a),
        Action::Events => toggle(title, detail, s.show_events, a),
        _ => button(title, detail, "", a),
    }
}

fn tray_row(s: &Settings, colors: ThemeColors, inst: InstallationState, a: Action) -> (r: Row)
    requires
        colors == colors_of(*s),
        a == Action::TrayContent || a == Action::Digits || a == Action::TrayText || a == Action::TrayBackground || a == Action::Tooltip,
    ensures
        row_is(r, *s, inst, a),
{
    let (title, detail) = row_text(a);
    match a {
        Action::TrayContent => {
            let r = choice(title, detail, &["آیکون برنامه", "شماره روز"], if s.tray_day_icon { 1 } else { 0 }, a);
            assert(labels_of(r) =~= fixed_labels(a));
            r
        },
        Action::Digits => {
            let mut r = choice(title, detail, &["فارسی", "انگلیسی"], if s.tray_english_digits { 1 } else { 0 }, a);
            r.enabled = s.tray_day_icon;
            assert(labels_of(r) =~= fixed_labels(a));
            r
        },
        Action::TrayText => {
            let mut r = choice(title, detail, &["سفید", "مشکی"], if s.tray_text_white { 0 } else { 1 }, a);
            r.enabled = s.tray_day_icon;
            assert(labels_of(r) =~= fixed_labels(a));
            r
        },
        Action::TrayBackground => {
            let mut r = choice(title, detail, &["شفاف", "رنگی (Accent)"], if s.tray_accent_background { 1 } else { 0 }, a);
            r.enabled = s.tray_day_icon;
            assert(labels_of(r) =~= fixed_labels(a));
            r
        },
        Action::Tooltip => toggle(title, detail, s.show_tray_date, a),
        _ => button(title, detail, "", a),
    }
}

fn program_row(s: &Settings, colors: ThemeColors, inst: InstallationState, a: Action) -> (r: Row)
    requires
        colors == colors_of(*s),
        a == Action::Autostart || a == Action::AutoUpdate || a == Action::CheckUpdate || a == Action::Install || a == Action::Uninstall || a == Action::Reset,
    ensures
        row_is(r, *s, inst, a),
{
    let (title, detail) = row_text(a);
    match a {
        Action::Autostart => toggle(title, detail, s.autostart, a),
        Action::AutoUpdate => toggle(title, detail, s.auto_update, a),
        Action::CheckUpdate => button(title, detail, "بررسی بروزرسانی", a),
        Action::Install => {
            let label = match inst {
                InstallationState::NotInstalled => "نصب برنامه",
                InstallationState::UpdateAvailable => "بروزرسانی نصب",
                _ => "نصب شده",
            };
            let mut r = button(title, detail, label, a);
            r.enabled = match inst {
                InstallationState::NotInstalled | InstallationState::UpdateAvailable => true,
                _ => false,
            };
            r
        },
        Action::Uninstall => {
            let mut r = button(title, detail, "حذف برنامه", a);
            r.enabled = inst != InstallationState::NotInstalled;
            r
        },
        Action::Reset => button(title, detail, "بازنشانی…", a),
        _ => button(title, detail, "", a),
    }
}

fn make_row(s: &Settings, colors: ThemeColors, inst: InstallationState, a: Action) -> (r: Row)
    requires
        colors == colors_of(*s),
    ensures
        row_is(r, *s, inst, a),
{
    match a {
        Action::Theme | Action::Primary | Action::Accent | Action::Scale | Action::ThemeReset => {
            appearance_row(s, colors, inst, a)
        },
        Action::Layout | Action::Calendar | Action::Direction | Action::Jalali
        | Action::Gregorian | Action::Hijri | Action::Subtitles | Action::Events => {
            calendar_row(s, colors, inst, a)
        },
        Action::TrayContent | Action::Digits | Action::TrayText | Action::TrayBackground
        | Action::Tooltip => tray_row(s, colors, inst, a),
        _ => program_row(s, colors, inst, a),
    }
}

/// The rows of a page for the given settings and installation state.
pub fn rows(settings: &Settings, page: usize, installation: InstallationState) -> (r: Vec<Row>)
    ensures
        r@.len() == page_actions(page as int).len(),
        forall|i: int|
            0 <= i < r@.len() ==> row_is(
                #[trigger] r@[i],
                *settings,
                installation,
                page_actions(page as int)[i],
            ),
{
    let colors = ThemeColors::from_settings(settings);
    let actions = page_action_list(page);
    let mut result: Vec<Row> = Vec::new();
    let mut i: usize = 0;
    while i < actions.len()
        invariant
            i <= actions@.len(),
            actions@ == page_actions(page as int),
            colors == colors_of(*settings),
            result@.len() == i,
            forall|k: int|
                0 <= k < i ==> row_is(#[trigger] result@[k], *settings, installation, actions@[k]),
        decreases actions@.len() - i,
    {
        let row = make_row(settings, colors, installation, actions[i]);
        result.push(row);
        i += 1;
    }
    result
}

/// Every row has between one and five buttons.
pub proof fn lemma_label_count(s: Settings, inst: InstallationState, a: Action)
    ensures
        1 <= row_labels(s, inst, a).len() <= 5,
{
}

// ---------------------------------------------------------------------------
// Focus order and clicks
// ---------------------------------------------------------------------------

/// What a click or the keyboard reaches in the panel.
#[derive(Clone, Copy, Debug, PartialEq, Eq, Structural)]
pub enum PanelTarget {
    /// The close box.
    Close,
    /// A page in the side bar.
    Page(usize),
    /// The `index`-th button (or the switch) of the row of an action.
    Control(Action, usize),
    Nothing,
}

/// The close box.
pub open spec fn close_rect() -> Rect {
    Rect { left: 20, top: 20, right: 52, bottom: 52 }
}

/// The side-bar entry of page `i`; the last page sits at the bottom.
pub open spec fn tab_rect(i: int) -> Rect {
    let top = if i == 4 { 506 } else { 94 + i * 58 };
    Rect { left: 558, top: top as i32, right: 728, bottom: (top + 46) as i32 }
}

/// The close box and the side bar, in focus order.
pub open spec fn fixed_entries() -> Seq<(Rect, PanelTarget)> {
    seq![
        (close_rect(), PanelTarget::Close),
        (tab_rect(0), PanelTarget::Page(0)),
        (tab_rect(1), PanelTarget::Page(1)),
        (tab_rect(2), PanelTarget::Page(2)),
        (tab_rect(3), PanelTarget::Page(3)),
        (tab_rect(4), PanelTarget::Page(4)),
    ]
}

/// The controls of the `i`-th row of a page, when it can be used.
pub open spec fn row_entries(s: Settings, inst: InstallationState, page: int, i: int, a: Action) -> Seq<
    (Rect, PanelTarget),
> {
    let n = row_labels(s, inst, a).len();
    if row_enabled(s, inst, a) {
        Seq::new(
            n,
            |j: int|
                (
                    spec_control_rect(i, j, n as int, row_toggle(a), page),
                    PanelTarget::Control(a, j as usize),
                ),
        )
    } else {
        Seq::empty()
    }
}

/// The controls of the first `n` rows of a page.
pub open spec fn entries_upto(s: Settings, inst: InstallationState, page: int, n: int) -> Seq<
    (Rect, PanelTarget),
>
    decreases n,
{
    if n <= 0 {
        Seq::empty()
    } else {
        entries_upto(s, inst, page, n - 1) + row_entries(
            s,
            inst,
            page,
            n - 1,
            page_actions(page)[n - 1],
        )
    }
}

/// Everything the focus visits on a page, in order, with what it is.
pub open spec fn spec_focus_entries(s: Settings, inst: InstallationState, page: int) -> Seq<
    (Rect, PanelTarget),
> {
    fixed_entries() + entries_upto(s, inst, page, page_actions(page).len() as int)
}

proof fn lemma_entries_len(s: Settings, inst: InstallationState, page: int, n: int)
    requires
        0 <= n,
    ensures
        entries_upto(s, inst, page, n).len() <= 5 * n,
    decreases n,
{
    if n > 0 {
        lemma_entries_len(s, inst, page, n - 1);
        lemma_label_count(s, inst, page_actions(page)[n - 1]);
    }
}

proof fn lemma_control_ok(row: int, index: int, count: int, toggle: bool, page: int)
    requires
        0 <= row < 8,
        0 <= index < count,
        1 <= count <= 5,
    ensures
        control_rect_ok(row, index, count, toggle, page),
{
    assert(spec_row_top(row, page) <= 106 + 8 * 62);
    if count == 1 {
        assert(240int / 1 == 240);
    } else if count == 2 {
        assert(240int / 2 == 120);
    } else if count == 3 {
        assert(240int / 3 == 80);
    } else if count == 4 {
        assert(240int / 4 == 60);
    } else {
        assert(240int / 5 == 48);
    }
    assert(0 <= index * (240int / count) <= 240) by (nonlinear_arith)
        requires
            0 <= index < count,
            1 <= count <= 5,
            count * (240int / count) <= 240,
    ;
}

fn fixed_entry_list() -> (r: Vec<(Rect, PanelTarget)>)
    ensures
        r@ == fixed_entries(),
{
    let r = vec![
        (Rect { left: 20, top: 20, right: 52, bottom: 52 }, PanelTarget::Close),
        (Rect { left: 558, top: 94, right: 728, bottom: 140 }, PanelTarget::Page(0)),
        (Rect { left: 558, top: 152, right: 728, bottom: 198 }, PanelTarget::Page(1)),
        (Rect { left: 558, top: 210, right: 728, bottom: 256 }, PanelTarget::Page(2)),
        (Rect { left: 558, top: 268, right: 728, bottom: 314 }, PanelTarget::Page(3)),
        (Rect { left: 558, top: 506, right: 728, bottom: 552 }, PanelTarget::Page(4)),
    ];
    assert(r@ =~= fixed_entries());
    r
}

fn push_row_entries(
    entries: &mut Vec<(Rect, PanelTarget)>,
    r: &Row,
    i: usize,
    page: usize,
    Ghost(s): Ghost<Settings>,
    Ghost(inst): Ghost<InstallationState>,
)
    requires
        i < 8,
        row_is(*r, s, inst, r.action),
    ensures
        final(entries)@ == old(entries)@ + row_entries(s, inst, page as int, i as int, r.action),
{
    proof {
        lemma_label_count(s, inst, r.action);
    }
    let ghost n = labels_of(*r).len();
    let ghost before = entries@;
    if r.enabled {
        let count = r.options.len();
        let mut j: usize = 0;
        while j < count
            invariant
                j <= count,
                count == n,
                1 <= n <= 5,
                i < 8,
                entries@ == before + Seq::new(
                    j as nat,
                    |k: int|
                        (
                            spec_control_rect(i as int, k, n as int, r.toggle, page as int),
                            PanelTarget::Control(r.action, k as usize),
                        ),
                ),
            decreases count - j,
        {
            proof {
                lemma_control_ok(i as int, j as int, count as int, r.toggle, page as int);
            }
            let rect = control_rect(i, j, count, r.toggle, page);
            entries.push((rect, PanelTarget::Control(r.action, j)));
            j += 1;
            assert(entries@ =~= before + Seq::new(
                j as nat,
                |k: int|
                    (
                        spec_control_rect(i as int, k, n as int, r.toggle, page as int),
                        PanelTarget::Control(r.action, k as usize),
                    ),
            ));
        }
        assert(entries@ =~= before + row_entries(s, inst, page as int, i as int, r.action));
    } else {
        assert(entries@ =~= before + row_entries(s, inst, page as int, i as int, r.action));
    }
}

fn focus_entries(settings: &Settings, page: usize, installation: InstallationState) -> (r: Vec<
    (Rect, PanelTarget),
>)
    ensures
        r@ == spec_focus_entries(*settings, installation, page as int),
{
    let mut entries = fixed_entry_list();
    let list = rows(settings, page, installation);
    let ghost n = page_actions(page as int).len();
    assert(n <= 8);
    let mut i: usize = 0;
    while i < list.len()
        invariant
            i <= list@.len(),
            list@.len() == page_actions(page as int).len(),
            list@.len() <= 8,
            forall|k: int|
                0 <= k < list@.len() ==> row_is(
                    #[trigger] list@[k],
                    *settings,
                    installation,
                    page_actions(page as int)[k],
                ),
            entries@ == fixed_entries() + entries_upto(*settings, installation, page as int, i as int),
        decreases list@.len() - i,
    {
        let ghost before = entries@;
        assert(row_is(list@[i as int], *settings, installation, page_actions(page as int)[i as int]));
        push_row_entries(&mut entries, &list[i], i, page, Ghost(*settings), Ghost(installation));
        assert(entries@ =~= fixed_entries() + entries_upto(
            *settings,
            installation,
            page as int,
            i + 1,
        ));
        i += 1;
    }
    entries
}

/// The rectangles the keyboard focus visits on a page, in order.
pub fn focus_regions(settings: &Settings, page: usize, installation: InstallationState) -> (r: Vec<Rect>)
    ensures
        r@ == spec_focus_entries(*settings, installation, page as int).map_values(
            |e: (Rect, PanelTarget)| e.0,
        ),
{
    let entries = focus_entries(settings, page, installation);
    let mut regions: Vec<Rect> = Vec::new();
    let mut k: usize = 0;
    while k < entries.len()
        invariant
            k <= entries@.len(),
            regions@ == entries@.subrange(0, k as int).map_values(|e: (Rect, PanelTarget)| e.0),
        decreases entries@.len() - k,
    {
        regions.push(entries[k].0);
        k += 1;
        assert(regions@ =~= entries@.subrange(0, k as int).map_values(|e: (Rect, PanelTarget)| e.0));
    }
    assert(entries@.subrange(0, entries@.len() as int) =~= entries@);
    regions
}

/// A click at window coordinates (x, y) with the panel at `scale` percent:
/// the index of the first focus entry under the pointer (-1 for none), which
/// becomes the focus, and what that entry is.
pub fn click(
    settings: &Settings,
    page: usize,
    installation: InstallationState,
    x: i32,
    y: i32,
    scale: u32,
) -> (r: (isize, PanelTarget))
    requires
        scale > 0,
    ensures
        -1 <= r.0 < spec_focus_entries(*settings, installation, page as int).len(),
        r.0 == -1 ==> r.1 == PanelTarget::Nothing,
        r.0 >= 0 ==> r.1 == spec_focus_entries(*settings, installation, page as int)[r.0 as int].1,
        r.0 >= 0 ==> spec_contains(
            spec_focus_entries(*settings, installation, page as int)[r.0 as int].0,
            spec_unscaled(x as int, scale as int) as int,
            spec_unscaled(y as int, scale as int) as int,
        ),
        forall|k: int|
            0 <= k < spec_focus_entries(*settings, installation, page as int).len() && (r.0 == -1
                || k < r.0) ==> !spec_contains(
                #[trigger] spec_focus_entries(*settings, installation, page as int)[k].0,
                spec_unscaled(x as int, scale as int) as int,
                spec_unscaled(y as int, scale as int) as int,
            ),
{
    let ux = unscaled(x, scale);
    let uy = unscaled(y, scale);
    let entries = focus_entries(settings, page, installation);
    proof {
        lemma_entries_len(*settings, installation, page as int, page_actions(page as int).len() as int);
    }
    let mut k: usize = 0;
    while k < entries.len()
        invariant
            k <= entries@.len(),
            entries@.len() < 1000,
            entries@ == spec_focus_entries(*settings, installation, page as int),
            ux == spec_unscaled(x as int, scale as int),
            uy == spec_unscaled(y as int, scale as int),
            forall|m: int| 0 <= m < k ==> !spec_contains(#[trigger] entries@[m].0, ux as int, uy as int),
        decreases entries@.len() - k,
    {
        if contains(entries[k].0, ux, uy) {
            let r = (k as isize, entries[k].1);
            assert(r.0 as int == k as int);
            return r;
        }
        k += 1;
    }
    (-1, PanelTarget::Nothing)
}

/// The focus after Tab (or Shift+Tab when `backwards`) among `count`
/// entries: forward from the current one, wrapping around; backwards from
/// no focus starts at the last entry.
pub open spec fn spec_next_focus(current: int, backwards: bool, count: int) -> int {
    if current < 0 && backwards {
        count - 1
    } else {
        (current + if backwards { -1int } else { 1int }) % count
    }
}

pub fn next_focus(current: isize, backwards: bool, count: usize) -> (r: isize)
    requires
        0 < count <= isize::MAX,
        current < isize::MAX,
    ensures
        r == spec_next_focus(current as int, backwards, count as int),
        0 <= r < count,
{
    let n = count as isize;
    if current < 0 && backwards {
        return n - 1;
    }
    let next: i64 = if backwards { current as i64 - 1 } else { current as i64 + 1 };
    match next.checked_rem_euclid(n as i64) {
        Some(v) => v as isize,
        None => 0,
    }
}

/// Tab then Shift+Tab (or the reverse) returns the focus to where it was.
pub proof fn lemma_tab_round_trip(current: int, count: int)
    requires
        0 <= current < count,
    ensures
        spec_next_focus(spec_next_focus(current, false, count), true, count) == current,
        spec_next_focus(spec_next_focus(current, true, count), false, count) == current,
{
    let f = spec_next_focus(current, false, count);
    let b = spec_next_focus(current, true, count);
    if current + 1 < count {
        assert((current + 1) % count == current + 1) by (nonlinear_arith)
            requires
                0 <= current + 1 < count,
        ;
    } else {
        assert((current + 1) % count == 0) by (nonlinear_arith)
            requires
                current + 1 == count,
                count > 0,
        ;
    }
    assert(0 <= f < count);
    if f >= 1 {
        assert((f - 1) % count == f - 1) by (nonlinear_arith)
            requires
                0 <= f - 1 < count,
        ;
    } else {
        assert((f - 1) % count == count - 1) by (nonlinear_arith)
            requires
                f == 0,
                count > 0,
        ;
    }
    if current >= 1 {
        assert((current - 1) % count == current - 1) by (nonlinear_arith)
            requires
                0 <= current - 1 < count,
        ;
    } else {
        assert((current - 1) % count == count - 1) by (nonlinear_arith)
            requires
                current == 0,
                count > 0,
        ;
    }
    assert(0 <= b < count);
    if b + 1 < count {
        assert((b + 1) % count == b + 1) by (nonlinear_arith)
            requires
                0 <= b + 1 < count,
        ;
    } else {
        assert((b + 1) % count == 0) by (nonlinear_arith)
            requires
                b + 1 == count,
                count > 0,
        ;
    }
}

} // verus!
