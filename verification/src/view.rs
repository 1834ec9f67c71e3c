//! The calendar window's state: the month on display, the selected day, and
//! what the window's controls and texts make of them.
use vstd::prelude::*;
use crate::arith::fits_i32;
use crate::calendar::{
    CalendarKind, Date, add_day, add_day_ok, add_month, convert, convert_ok, days_in_month,
    days_in_month_ok, first_weekday_saturday, from_gregorian, from_gregorian_ok, month_name,
    month_number, month_range_ok, month_range_text, month_range_text_fa, month_span, range_text,
    spec_add_day, spec_convert, spec_days_in_month, spec_from_gregorian, spec_month_name,
    spec_month_name_fa, spec_month_range_text, spec_to_gregorian, spec_weekday_saturday,
    to_gregorian, to_gregorian_ok,
};
use crate::events::{CalendarEvent, EventStore, on_day, padded_date, padded_date_text};
use crate::settings::Settings;
use crate::text::{decimal, int_decimal, persian_digits, persian_number, to_persian_digits};

verus! {

/// Height of the month grid view at 100%.
pub const BASE_HEIGHT_CALENDAR: i32 = 517;

/// Height of the one-day view at 100%.
pub const BASE_HEIGHT_COMPACT: i32 = 126;

/// Height of the occasions list.
pub const BASE_EVENTS_HEIGHT: i32 = 136;

/// Height of the footer links.
pub const BASE_FOOTER_HEIGHT: i32 = 30;

/// Height of the update banner.
pub const BASE_UPDATE_HEIGHT: i32 = 42;

/// Height of the in-window settings view.
pub const BASE_SETTINGS_HEIGHT: i32 = 878;

/// Left edge of the month grid.
pub const GRID_LEFT: i32 = 18;

/// Top edge of the month grid.
pub const GRID_TOP: i32 = 159;

/// Width of one grid cell.
pub const CELL_WIDTH: i32 = 56;

/// Height of one grid cell.
pub const CELL_HEIGHT: i32 = 54;

/// Width of the month grid.
pub const GRID_WIDTH: i32 = 392;

/// Top of the occasions list under the month grid.
pub const EVENTS_TOP: i32 = 503;

/// Top of the occasions list under the one-day view.
pub const COMPACT_EVENTS_TOP: i32 = 116;

/// What the calendar window shows.
#[derive(Clone, Copy, Debug, PartialEq, Eq, Structural)]
pub enum ViewMode {
    Calendar,
    Settings,
}

/// The state of the calendar window.
#[derive(Clone, Debug)]
pub struct AppState {
    pub settings: Settings,
    pub events: EventStore,
    /// Today, in the Gregorian calendar.
    pub today_gregorian: Date,
    /// The month on display, in the main calendar.
    pub year: i32,
    pub month: u32,
    /// The selected day of that month, if any.
    pub selected_day: Option<u32>,
    pub view: ViewMode,
    /// First visible occasion in the list.
    pub event_scroll: usize,
    /// Grid cell under the mouse.
    pub hovered_cell: Option<i32>,
}

/// Window height at 100%: the view's content, the occasions list, the footer,
/// and the update banner while it is shown.
pub open spec fn spec_base_height(s: AppState, banner_visible: bool) -> int {
    let update_height = if !s.settings.auto_update && banner_visible {
        BASE_UPDATE_HEIGHT as int
    } else {
        0
    };
    let content = if s.view == ViewMode::Settings {
        BASE_SETTINGS_HEIGHT + BASE_FOOTER_HEIGHT
    } else {
        (if s.settings.compact_day {
            BASE_HEIGHT_COMPACT as int
        } else {
            BASE_HEIGHT_CALENDAR as int
        }) + (if s.settings.show_events {
            BASE_EVENTS_HEIGHT as int
        } else {
            0
        }) + BASE_FOOTER_HEIGHT
    };
    content + update_height
}

/// Top of the occasions list.
pub open spec fn spec_events_top(s: AppState) -> int {
    if s.settings.compact_day {
        COMPACT_EVENTS_TOP as int
    } else {
        EVENTS_TOP as int
    }
}

/// A Gregorian day in the calendar `kind`.
#[verifier::opaque]
pub open spec fn day_in(kind: CalendarKind, gregorian: Date) -> Date {
    spec_from_gregorian(kind, gregorian)
}

/// The conversion of `day_in` stays within machine integers.
#[verifier::opaque]
pub open spec fn day_in_ok(kind: CalendarKind, gregorian: Date) -> bool {
    from_gregorian_ok(kind, gregorian)
}

/// Today in the main calendar.
pub open spec fn spec_today_main(s: AppState) -> Date {
    day_in(s.settings.main_calendar, s.today_gregorian)
}

/// `today_main` stays within machine integers.
pub open spec fn today_ok(s: AppState) -> bool {
    day_in_ok(s.settings.main_calendar, s.today_gregorian)
}

/// The day the window treats as current: the selected day, else today when
/// the month on display is today's month, else the first.
pub open spec fn current_day(s: AppState) -> u32 {
    match s.selected_day {
        Some(d) => d,
        None => {
            let today = spec_today_main(s);
            if s.year == today.year && s.month == today.month {
                today.day
            } else {
                1
            }
        },
    }
}

/// `current_day` needs today only when no day is selected.
pub open spec fn current_ok(s: AppState) -> bool {
    s.selected_day is None ==> today_ok(s)
}

/// The day that anchors a change of main calendar: the selected day (else
/// the first), capped at the length of the month.
pub open spec fn anchor_date(s: AppState) -> Date {
    let dim = spec_days_in_month(s.settings.main_calendar, s.year as int, s.month as int);
    let day = match s.selected_day {
        Some(d) => d,
        None => 1u32,
    };
    Date { year: s.year, month: s.month, day: if day as int <= dim { day } else { dim as u32 } }
}

/// A change of main calendar stays within machine integers.
#[verifier::opaque]
pub open spec fn switch_ok(s: AppState, next: CalendarKind) -> bool {
    &&& days_in_month_ok(s.settings.main_calendar, s.year as int, s.month as int)
    &&& to_gregorian_ok(s.settings.main_calendar, anchor_date(s))
    &&& from_gregorian_ok(next, spec_to_gregorian(s.settings.main_calendar, anchor_date(s)))
}

/// The state after the main calendar becomes `next`: the anchor day, shown
/// in the new calendar and selected.
#[verifier::opaque]
pub open spec fn spec_set_main_calendar(s: AppState, next: CalendarKind) -> AppState {
    let converted = spec_from_gregorian(
        next,
        spec_to_gregorian(s.settings.main_calendar, anchor_date(s)),
    );
    AppState {
        settings: Settings { main_calendar: next, ..s.settings },
        year: converted.year,
        month: converted.month,
        selected_day: Some(converted.day),
        event_scroll: 0,
        ..s
    }
}

impl AppState {
    pub fn base_height(&self, banner_visible: bool) -> (r: i32)
        ensures
            r == spec_base_height(*self, banner_visible),
    {
        let update_height = if !self.settings.auto_update && banner_visible {
            BASE_UPDATE_HEIGHT
        } else {
            0
        };
        (if self.view == ViewMode::Settings {
            BASE_SETTINGS_HEIGHT + BASE_FOOTER_HEIGHT
        } else {
            (if self.settings.compact_day {
                BASE_HEIGHT_COMPACT
            } else {
                BASE_HEIGHT_CALENDAR
            }) + if self.settings.show_events {
                BASE_EVENTS_HEIGHT
            } else {
                0
            } + BASE_FOOTER_HEIGHT
        }) + update_height
    }

    pub fn scale(&self) -> (r: u32)
        ensures
            r == self.settings.ui_scale,
    {
        self.settings.ui_scale
    }

    pub fn today_main(&self) -> (r: Date)
        requires
            today_ok(*self),
        ensures
            r == spec_today_main(*self),
    {
        reveal(day_in);
        reveal(day_in_ok);
        from_gregorian(self.settings.main_calendar, self.today_gregorian)
    }

    /// Records the date the clock now shows; true when the day changed.
    pub fn refresh_today(&mut self, today: Date) -> (changed: bool)
        ensures
            changed == (today != old(self).today_gregorian),
            *final(self) == (AppState { today_gregorian: today, ..*old(self) }),
    {
        if today == self.today_gregorian {
            return false;
        }
        self.today_gregorian = today;
        true
    }

    /// Selects today (or the first of a month other than today's) when
    /// nothing is selected.
    pub fn ensure_daily_selection(&mut self)
        requires
            current_ok(*old(self)),
        ensures
            *final(self) == (AppState { selected_day: Some(current_day(*old(self))), ..*old(self) }),
    {
        if self.selected_day.is_none() {
            let today = self.today_main();
            self.selected_day = Some(
                if today.year == self.year && today.month == self.month {
                    today.day
                } else {
                    1
                },
            );
        }
    }

    /// Makes `next` the main calendar, keeping the anchor day on display.
    pub fn set_main_calendar(&mut self, next: CalendarKind)
        requires
            switch_ok(*old(self), next),
        ensures
            *final(self) == spec_set_main_calendar(*old(self), next),
    {
        reveal(spec_set_main_calendar);
        reveal(switch_ok);
        let dim = days_in_month(self.settings.main_calendar, self.year, self.month);
        let selected = match self.selected_day {
            Some(d) => d,
            None => 1,
        };
        let anchor_day = if selected <= dim { selected } else { dim };
        let anchor = Date::new(self.year, self.month, anchor_day);
        assert(anchor == anchor_date(*old(self)));
        let anchor_g = to_gregorian(self.settings.main_calendar, anchor);
        self.settings.main_calendar = next;
        let converted = from_gregorian(next, anchor_g);
        self.year = converted.year;
        self.month = converted.month;
        self.selected_day = Some(converted.day);
        self.event_scroll = 0;
    }
}

/// Top of the occasions list.
pub fn events_top(app: &AppState) -> (r: i32)
    ensures
        r == spec_events_top(*app),
{
    if app.settings.compact_day {
        COMPACT_EVENTS_TOP
    } else {
        EVENTS_TOP
    }
}


/// The day one step away from the current day, within the month on display
/// or across its edge.
pub open spec fn step_target(s: AppState, forward: bool) -> Date {
    let kind = s.settings.main_calendar;
    let dim = spec_days_in_month(kind, s.year as int, s.month as int);
    let sel = current_day(s);
    let day = if sel as int <= dim { sel as int } else { dim };
    if forward {
        if day < dim {
            Date { year: s.year, month: s.month, day: (day + 1) as u32 }
        } else {
            let n = month_number(s.year as int, s.month as int, 1);
            Date { year: (n / 12) as i32, month: (n % 12 + 1) as u32, day: 1 }
        }
    } else if day > 1 {
        Date { year: s.year, month: s.month, day: (day - 1) as u32 }
    } else {
        let n = month_number(s.year as int, s.month as int, -1);
        let year = (n / 12) as i32;
        let month = (n % 12 + 1) as u32;
        Date { year, month, day: spec_days_in_month(kind, year as int, month as int) as u32 }
    }
}

/// `step_day` stays within machine integers.
pub open spec fn step_ok(s: AppState, forward: bool) -> bool {
    let kind = s.settings.main_calendar;
    let n = month_number(s.year as int, s.month as int, -1);
    &&& current_ok(s)
    &&& days_in_month_ok(kind, s.year as int, s.month as int)
    &&& !forward ==> days_in_month_ok(kind, (n / 12) as i32 as int, (n % 12 + 1) as u32 as int)
}

/// The current day moved by `delta` days, in the main calendar.
pub open spec fn move_target(s: AppState, delta: int) -> Date {
    spec_add_day(
        s.settings.main_calendar,
        Date { year: s.year, month: s.month, day: current_day(s) },
        delta,
    )
}

/// `move_calendar_day` stays within machine integers.
pub open spec fn move_ok(s: AppState, delta: int) -> bool {
    &&& current_ok(s)
    &&& add_day_ok(
        s.settings.main_calendar,
        Date { year: s.year, month: s.month, day: current_day(s) },
        delta,
    )
}

/// The state showing and selecting `date`, with the occasions list at its top.
pub open spec fn select_date(s: AppState, date: Date) -> AppState {
    AppState { year: date.year, month: date.month, selected_day: Some(date.day), event_scroll: 0, ..s }
}

impl AppState {
    /// Moves the selection one day forward (`delta >= 0`) or back, into the
    /// next or previous month at the month's edge.
    pub fn step_day(&mut self, delta: i32)
        requires
            step_ok(*old(self), delta >= 0),
        ensures
            *final(self) == (AppState {
                hovered_cell: None,
                ..select_date(*old(self), step_target(*old(self), delta >= 0))
            }),
    {
        self.ensure_daily_selection();
        let kind = self.settings.main_calendar;
        let dim = days_in_month(kind, self.year, self.month);
        let selected = match self.selected_day {
            Some(d) => d,
            None => 1,
        };
        let mut date = Date::new(self.year, self.month, if selected <= dim { selected } else { dim });
        if delta >= 0 {
            if date.day < days_in_month(kind, date.year, date.month) {
                date.day = date.day + 1;
            } else {
                date.day = 1;
                add_month(kind, &mut date.year, &mut date.month, 1);
            }
        } else if date.day > 1 {
            date.day = date.day - 1;
        } else {
            add_month(kind, &mut date.year, &mut date.month, -1);
            date.day = days_in_month(kind, date.year, date.month);
        }
        self.year = date.year;
        self.month = date.month;
        self.selected_day = Some(date.day);
        self.event_scroll = 0;
        self.hovered_cell = None;
    }
}

/// Moves the current day by `delta` days.
pub fn move_calendar_day(app: &mut AppState, delta: i32)
    requires
        move_ok(*old(app), delta as int),
    ensures
        *final(app) == select_date(*old(app), move_target(*old(app), delta as int)),
{
    let current = match app.selected_day {
        Some(d) => d,
        None => {
            let today = app.today_main();
            if app.year == today.year && app.month == today.month {
                today.day
            } else {
                1
            }
        },
    };
    let next = add_day(app.settings.main_calendar, Date::new(app.year, app.month, current), delta);
    app.year = next.year;
    app.month = next.month;
    app.selected_day = Some(next.day);
    app.event_scroll = 0;
}

/// Weekday (0 = Saturday) of the first of a month.
pub open spec fn spec_first_weekday(kind: CalendarKind, year: i32, month: u32) -> int {
    spec_weekday_saturday(spec_to_gregorian(kind, Date { year, month, day: 1 }))
}

/// The date in grid cell `cell` (0 = first cell) of a month view, and whether
/// it belongs to the month itself rather than to its neighbours.
pub open spec fn spec_adjacent_date(kind: CalendarKind, year: i32, month: u32, cell: int) -> (
    Date,
    bool,
) {
    let current = spec_days_in_month(kind, year as int, month as int);
    let relative = cell - spec_first_weekday(kind, year, month) + 1;
    if 1 <= relative <= current {
        (Date { year, month, day: relative as u32 }, true)
    } else if relative < 1 {
        let n = month_number(year as int, month as int, -1);
        let py = (n / 12) as i32;
        let pm = (n % 12 + 1) as u32;
        (Date { year: py, month: pm, day: (spec_days_in_month(kind, py as int, pm as int) + relative) as u32 }, false)
    } else {
        let n = month_number(year as int, month as int, 1);
        (Date { year: (n / 12) as i32, month: (n % 12 + 1) as u32, day: (relative - current) as u32 }, false)
    }
}

/// `adjacent_date` stays within machine integers.
pub open spec fn adjacent_ok(kind: CalendarKind, year: i32, month: u32, cell: int) -> bool {
    let first = spec_first_weekday(kind, year, month);
    let relative = cell - first + 1;
    let n = month_number(year as int, month as int, -1);
    &&& to_gregorian_ok(kind, Date { year, month, day: 1 })
    &&& days_in_month_ok(kind, year as int, month as int)
    &&& fits_i32(cell - first)
    &&& fits_i32(relative)
    &&& relative < 1 ==> days_in_month_ok(kind, (n / 12) as i32 as int, (n % 12 + 1) as u32 as int)
}

pub fn adjacent_date(kind: CalendarKind, year: i32, month: u32, cell_index: i32) -> (r: (Date, bool))
    requires
        adjacent_ok(kind, year, month, cell_index as int),
    ensures
        r == spec_adjacent_date(kind, year, month, cell_index as int),
{
    let first = first_weekday_saturday(kind, year, month);
    let current_days = days_in_month(kind, year, month) as i32;
    let relative = cell_index - first + 1;
    if relative >= 1 && relative <= current_days {
        return (Date::new(year, month, relative as u32), true);
    }
    if relative < 1 {
        let mut previous_year = year;
        let mut previous_month = month;
        add_month(kind, &mut previous_year, &mut previous_month, -1);
        let day = days_in_month(kind, previous_year, previous_month) as i32 + relative;
        return (Date::new(previous_year, previous_month, day as u32), false);
    }
    let mut next_year = year;
    let mut next_month = month;
    add_month(kind, &mut next_year, &mut next_month, 1);
    (Date::new(next_year, next_month, (relative - current_days) as u32), false)
}

/// A day number as a secondary calendar writes it: Western digits for the
/// Gregorian calendar, Persian digits for the others.
pub open spec fn spec_day_text(kind: CalendarKind, day: u32) -> Seq<char> {
    match kind {
        CalendarKind::Gregorian => int_decimal(day as int),
        _ => to_persian_digits(int_decimal(day as int)),
    }
}

pub fn secondary_day_text(kind: CalendarKind, day: u32) -> (r: String)
    ensures
        r@ == spec_day_text(kind, day),
{
    match kind {
        CalendarKind::Gregorian => decimal(day as i64),
        _ => persian_number(day as i64),
    }
}

/// A date as it is copied: `YYYY/MM/DD`, in Persian digits but for the
/// Gregorian calendar.
pub open spec fn spec_clipboard_date(kind: CalendarKind, date: Date) -> Seq<char> {
    let value = padded_date(date.year, date.month, date.day, seq!['/']);
    if kind == CalendarKind::Gregorian {
        value
    } else {
        to_persian_digits(value)
    }
}

pub fn clipboard_date(kind: CalendarKind, date: Date) -> (r: String)
    ensures
        r@ == spec_clipboard_date(kind, date),
{
    proof {
        reveal_strlit("/");
    }
    let value = padded_date_text(date.year, date.month, date.day, "/");
    if kind == CalendarKind::Gregorian {
        value
    } else {
        persian_digits(value.as_str())
    }
}

/// Whether a calendar is switched on as a secondary calendar.
pub open spec fn shows_kind(s: Settings, kind: CalendarKind) -> bool {
    match kind {
        CalendarKind::Jalali => s.show_jalali,
        CalendarKind::Gregorian => s.show_gregorian,
        CalendarKind::Hijri => s.show_hijri,
    }
}

/// The entry a calendar contributes to the secondary dates of `primary`.
pub open spec fn secondary_entry(s: Settings, primary: Date, kind: CalendarKind) -> Seq<(CalendarKind, Date)> {
    if shows_kind(s, kind) && kind != s.main_calendar {
        seq![(kind, spec_convert(primary, s.main_calendar, kind))]
    } else {
        Seq::empty()
    }
}

/// `primary` in each secondary calendar that is switched on, in the order
/// Jalali, Gregorian, Hijri.
pub open spec fn spec_secondary_dates(s: Settings, primary: Date) -> Seq<(CalendarKind, Date)> {
    secondary_entry(s, primary, CalendarKind::Jalali) + secondary_entry(
        s,
        primary,
        CalendarKind::Gregorian,
    ) + secondary_entry(s, primary, CalendarKind::Hijri)
}

/// The conversions of `secondary_dates` stay within machine integers.
pub open spec fn secondary_ok(s: Settings, primary: Date) -> bool {
    forall|kind: CalendarKind|
        shows_kind(s, kind) && kind != s.main_calendar ==> #[trigger] convert_ok(
            primary,
            s.main_calendar,
            kind,
        )
}

pub fn secondary_dates(app: &AppState, primary: Date) -> (r: Vec<(CalendarKind, Date)>)
    requires
        secondary_ok(app.settings, primary),
    ensures
        r@ == spec_secondary_dates(app.settings, primary),
{
    let mut values: Vec<(CalendarKind, Date)> = Vec::new();
    let main = app.settings.main_calendar;
    let kinds = [CalendarKind::Jalali, CalendarKind::Gregorian, CalendarKind::Hijri];
    let mut i: usize = 0;
    while i < 3
        invariant
            i <= 3,
            main == app.settings.main_calendar,
            kinds@ == seq![CalendarKind::Jalali, CalendarKind::Gregorian, CalendarKind::Hijri],
            secondary_ok(app.settings, primary),
            values@ == (if i == 0 {
                Seq::empty()
            } else if i == 1 {
                secondary_entry(app.settings, primary, CalendarKind::Jalali)
            } else if i == 2 {
                secondary_entry(app.settings, primary, CalendarKind::Jalali) + secondary_entry(
                    app.settings,
                    primary,
                    CalendarKind::Gregorian,
                )
            } else {
                spec_secondary_dates(app.settings, primary)
            }),
        decreases 3 - i,
    {
        let kind = kinds[i];
        let enabled = match kind {
            CalendarKind::Jalali => app.settings.show_jalali,
            CalendarKind::Gregorian => app.settings.show_gregorian,
            CalendarKind::Hijri => app.settings.show_hijri,
        };
        if enabled && kind != main {
            assert(convert_ok(primary, main, kind));
            values.push((kind, convert(primary, main, kind)));
        }
        proof {
            let e = secondary_entry(app.settings, primary, kind);
            assert(values@ =~= if i == 0 {
                e
            } else if i == 1 {
                secondary_entry(app.settings, primary, CalendarKind::Jalali) + e
            } else {
                secondary_entry(app.settings, primary, CalendarKind::Jalali) + secondary_entry(
                    app.settings,
                    primary,
                    CalendarKind::Gregorian,
                ) + e
            });
        }
        i += 1;
    }
    values
}


/// The Persian name of a weekday, 0 = Saturday.
pub open spec fn weekday_name(w: int) -> Seq<char> {
    if w == 0 {
        "شنبه"@
    } else if w == 1 {
        "یکشنبه"@
    } else if w == 2 {
        "دوشنبه"@
    } else if w == 3 {
        "سه‌شنبه"@
    } else if w == 4 {
        "چهارشنبه"@
    } else if w == 5 {
        "پنجشنبه"@
    } else {
        "جمعه"@
    }
}

fn weekday_text(w: i64) -> (r: &'static str)
    requires
        0 <= w < 7,
    ensures
        r@ == weekday_name(w as int),
{
    if w == 0 {
        "شنبه"
    } else if w == 1 {
        "یکشنبه"
    } else if w == 2 {
        "دوشنبه"
    } else if w == 3 {
        "سه‌شنبه"
    } else if w == 4 {
        "چهارشنبه"
    } else if w == 5 {
        "پنجشنبه"
    } else {
        "جمعه"
    }
}

/// Weekday (0 = Saturday) of day `day` of a month whose first falls on `first`.
pub open spec fn weekday_of(first: int, day: u32) -> int {
    (first + (day as i32) as int - 1) % 7
}

fn weekday_index(first: i32, day: u32) -> (r: i64)
    ensures
        r == weekday_of(first as int, day),
        0 <= r < 7,
{
    let x: i64 = first as i64 + (day as i32) as i64 - 1;
    let mut w: i64 = x % 7;
    if w < 0 {
        w = w + 7;
    }
    w
}

/// A number as the main calendar writes it.
pub open spec fn number_text(kind: CalendarKind, n: int) -> Seq<char> {
    match kind {
        CalendarKind::Gregorian => int_decimal(n),
        _ => to_persian_digits(int_decimal(n)),
    }
}

fn number_string(kind: CalendarKind, n: i64) -> (r: String)
    ensures
        r@ == number_text(kind, n as int),
{
    match kind {
        CalendarKind::Gregorian => decimal(n),
        _ => persian_number(n),
    }
}

/// The heading over the calendar: weekday, day, month name and year of the
/// current day.
pub open spec fn spec_main_date_heading(s: AppState) -> Seq<char> {
    let kind = s.settings.main_calendar;
    let day = current_day(s);
    let w = weekday_of(spec_first_weekday(kind, s.year, s.month), day);
    weekday_name(w) + "، "@ + number_text(kind, day as int) + " "@ + spec_month_name(
        kind,
        s.month as int,
    ) + " "@ + number_text(kind, s.year as int)
}

/// `main_date_heading` stays within machine integers.
pub open spec fn heading_ok(s: AppState) -> bool {
    current_ok(s) && to_gregorian_ok(
        s.settings.main_calendar,
        Date { year: s.year, month: s.month, day: 1 },
    )
}

pub fn main_date_heading(app: &AppState) -> (r: String)
    requires
        heading_ok(*app),
    ensures
        r@ == spec_main_date_heading(*app),
{
    let day = match app.selected_day {
        Some(d) => d,
        None => {
            let today = app.today_main();
            if app.year == today.year && app.month == today.month {
                today.day
            } else {
                1
            }
        },
    };
    let kind = app.settings.main_calendar;
    let w = weekday_index(first_weekday_saturday(kind, app.year, app.month), day);
    let day_text = number_string(kind, day as i64);
    let year_text = number_string(kind, app.year as i64);
    let mut text = String::from_str(weekday_text(w));
    text.append("، ");
    text.append(day_text.as_str());
    text.append(" ");
    text.append(month_name(kind, app.month));
    text.append(" ");
    text.append(year_text.as_str());
    text
}

/// A month's span in another calendar, with Persian month names and digits.
pub open spec fn spec_month_range_text_persian(
    kind: CalendarKind,
    year: int,
    month: int,
    target: CalendarKind,
) -> Seq<char> {
    let (start, end) = month_span(kind, year, month, target);
    range_text(
        spec_month_name_fa(target, start.month as int),
        to_persian_digits(int_decimal(start.year as int)),
        spec_month_name_fa(target, end.month as int),
        to_persian_digits(int_decimal(end.year as int)),
        start.year == end.year,
        start.month == end.month,
    )
}

/// The span of a secondary calendar over the month on display, when that
/// calendar is switched on and is not the main one.
#[verifier::opaque]
pub open spec fn range_entry(s: AppState, target: CalendarKind) -> Seq<Seq<char>> {
    let main = s.settings.main_calendar;
    if main != target && shows_kind(s.settings, target) {
        seq![
            if target == CalendarKind::Gregorian {
                spec_month_range_text(main, s.year as int, s.month as int, target)
            } else {
                spec_month_range_text_persian(main, s.year as int, s.month as int, target)
            },
        ]
    } else {
        Seq::empty()
    }
}

/// The subtitles under the heading: the spans of the Gregorian, Jalali and
/// Hijri months, as far as they are shown, at most two.
pub open spec fn spec_secondary_ranges(s: AppState) -> Seq<Seq<char>> {
    if !s.settings.show_subtitles {
        Seq::empty()
    } else {
        let all = range_entry(s, CalendarKind::Gregorian) + range_entry(s, CalendarKind::Jalali)
            + range_entry(s, CalendarKind::Hijri);
        if all.len() > 2 {
            all.take(2)
        } else {
            all
        }
    }
}

/// The spans `secondary_ranges` writes stay within machine integers.
pub open spec fn ranges_ok(s: AppState) -> bool {
    forall|target: CalendarKind|
        s.settings.main_calendar != target && shows_kind(s.settings, target)
            ==> #[trigger] month_range_ok(s.settings.main_calendar, s.year, s.month, target)
}

fn persian_range(kind: CalendarKind, year: i32, month: u32, target: CalendarKind) -> (r: String)
    requires
        month_range_ok(kind, year, month, target),
    ensures
        r@ == spec_month_range_text_persian(kind, year as int, month as int, target),
{
    let digits = |y: i32| -> (t: String)
        ensures
            t@ == to_persian_digits(int_decimal(y as int)),
        { persian_number(y as i64) };
    month_range_text_fa(kind, year, month, target, digits)
}

fn range_entry_text(app: &AppState, target: CalendarKind) -> (r: Option<String>)
    requires
        ranges_ok(*app),
    ensures
        match r {
            Some(t) => range_entry(*app, target) == seq![t@],
            None => range_entry(*app, target) == Seq::<Seq<char>>::empty(),
        },
{
    reveal(range_entry);
    let main = app.settings.main_calendar;
    let shown = match target {
        CalendarKind::Jalali => app.settings.show_jalali,
        CalendarKind::Gregorian => app.settings.show_gregorian,
        CalendarKind::Hijri => app.settings.show_hijri,
    };
    if main != target && shown {
        assert(month_range_ok(main, app.year, app.month, target));
        if target == CalendarKind::Gregorian {
            Some(month_range_text(main, app.year, app.month, target))
        } else {
            Some(persian_range(main, app.year, app.month, target))
        }
    } else {
        None
    }
}

fn push_entry(values: &mut Vec<String>, entry: Option<String>, Ghost(e): Ghost<Seq<Seq<char>>>)
    requires
        match entry {
            Some(t) => e == seq![t@],
            None => e == Seq::<Seq<char>>::empty(),
        },
    ensures
        final(values)@.len() == old(values)@.len() + e.len(),
        forall|i: int| 0 <= i < old(values)@.len() ==> #[trigger] final(values)@[i] == old(values)@[i],
        forall|i: int| 0 <= i < e.len() ==> #[trigger] final(values)@[old(values)@.len() + i]@ == e[i],
{
    match entry {
        Some(t) => values.push(t),
        None => {},
    }
}

pub fn secondary_ranges(app: &AppState) -> (r: Vec<String>)
    requires
        ranges_ok(*app),
    ensures
        r@.len() == spec_secondary_ranges(*app).len(),
        forall|i: int| 0 <= i < r@.len() ==> #[trigger] r@[i]@ == spec_secondary_ranges(*app)[i],
{
    let mut values: Vec<String> = Vec::new();
    if !app.settings.show_subtitles {
        return values;
    }
    let ghost g = range_entry(*app, CalendarKind::Gregorian);
    let ghost j = range_entry(*app, CalendarKind::Jalali);
    let ghost h = range_entry(*app, CalendarKind::Hijri);
    let entry = range_entry_text(app, CalendarKind::Gregorian);
    push_entry(&mut values, entry, Ghost(g));
    assert(forall|i: int| 0 <= i < values@.len() ==> #[trigger] values@[i]@ == g[i]) by {
        assert forall|i: int| 0 <= i < values@.len() implies #[trigger] values@[i]@ == g[i] by {
            assert(values@[0 + i]@ == g[i]);
        }
    }
    let entry = range_entry_text(app, CalendarKind::Jalali);
    let ghost v1 = values@;
    push_entry(&mut values, entry, Ghost(j));
    assert forall|i: int| 0 <= i < values@.len() implies #[trigger] values@[i]@ == (g + j)[i] by {
        if i < v1.len() {
            assert(values@[i] == v1[i]);
        } else {
            assert(values@[v1.len() + (i - v1.len())]@ == j[i - v1.len()]);
        }
    }
    let entry = range_entry_text(app, CalendarKind::Hijri);
    let ghost v2 = values@;
    push_entry(&mut values, entry, Ghost(h));
    let ghost all = g + j + h;
    assert forall|i: int| 0 <= i < values@.len() implies #[trigger] values@[i]@ == all[i] by {
        if i < v2.len() {
            assert(values@[i] == v2[i]);
            assert(v2[i]@ == (g + j)[i]);
        } else {
            assert(values@[v2.len() + (i - v2.len())]@ == h[i - v2.len()]);
        }
    }
    values.truncate(2);
    assert(spec_secondary_ranges(*app) == if all.len() > 2 { all.take(2) } else { all });
    values
}

/// The name the window and the tray icon carry.
pub const APP_NAME: &'static str = "گاه‌یار";

/// The tray tooltip: the name alone, or with today's Jalali date (weekday,
/// day, month, year in Persian digits) and today's Gregorian date.
pub open spec fn spec_tray_tooltip(s: AppState) -> Seq<char> {
    if !s.settings.show_tray_date {
        APP_NAME@
    } else {
        let jalali = spec_from_gregorian(CalendarKind::Jalali, s.today_gregorian);
        let g = s.today_gregorian;
        let w = weekday_of(spec_first_weekday(CalendarKind::Jalali, jalali.year, jalali.month), jalali.day);
        "گاه‌یار — "@ + weekday_name(w) + "، "@ + to_persian_digits(int_decimal(jalali.day as int))
            + " "@ + spec_month_name(CalendarKind::Jalali, jalali.month as int) + " "@
            + to_persian_digits(int_decimal(jalali.year as int)) + " | "@ + padded_date(
            g.year,
            g.month,
            g.day,
            "/"@,
        )
    }
}

/// `tray_tooltip` stays within machine integers.
pub open spec fn tooltip_ok(s: AppState) -> bool {
    let jalali = spec_from_gregorian(CalendarKind::Jalali, s.today_gregorian);
    s.settings.show_tray_date ==> (from_gregorian_ok(CalendarKind::Jalali, s.today_gregorian)
        && to_gregorian_ok(CalendarKind::Jalali, Date { year: jalali.year, month: jalali.month, day: 1 }))
}

pub fn tray_tooltip(app: &AppState) -> (r: String)
    requires
        tooltip_ok(*app),
    ensures
        r@ == spec_tray_tooltip(*app),
{
    if !app.settings.show_tray_date {
        return String::from_str(APP_NAME);
    }
    let jalali = from_gregorian(CalendarKind::Jalali, app.today_gregorian);
    let g = app.today_gregorian;
    let w = weekday_index(first_weekday_saturday(CalendarKind::Jalali, jalali.year, jalali.month), jalali.day);
    let day_text = persian_number(jalali.day as i64);
    let year_text = persian_number(jalali.year as i64);
    let gregorian_text = padded_date_text(g.year, g.month, g.day, "/");
    let mut text = String::from_str("گاه‌یار — ");
    text.append(weekday_text(w));
    text.append("، ");
    text.append(day_text.as_str());
    text.append(" ");
    text.append(month_name(CalendarKind::Jalali, jalali.month));
    text.append(" ");
    text.append(year_text.as_str());
    text.append(" | ");
    text.append(gregorian_text.as_str());
    text
}


/// The occasions of one day of the month on display, each with that day.
#[verifier::opaque]
pub open spec fn day_items(s: AppState, day: u32) -> Seq<(u32, CalendarEvent)> {
    let j = spec_convert(
        Date { year: s.year, month: s.month, day },
        s.settings.main_calendar,
        CalendarKind::Jalali,
    );
    s.events.events().filter(|e: CalendarEvent| on_day(e, j.year, j.month, j.day)).map_values(
        |e: CalendarEvent| (day, e),
    )
}

/// The occasions of the days `first..=last`, day by day.
pub open spec fn items_between(s: AppState, first: int, last: int) -> Seq<(u32, CalendarEvent)>
    decreases last - first + 1,
{
    if last < first {
        Seq::empty()
    } else {
        items_between(s, first, last - 1) + day_items(s, last as u32)
    }
}

/// First and last day whose occasions the list shows: the selected day, or
/// the whole month.
pub open spec fn listed_days(s: AppState) -> (int, int) {
    match s.selected_day {
        Some(d) => (d as int, d as int),
        None => (1, spec_days_in_month(s.settings.main_calendar, s.year as int, s.month as int)),
    }
}

/// The occasions the list shows.
pub open spec fn spec_event_items(s: AppState) -> Seq<(u32, CalendarEvent)> {
    items_between(s, listed_days(s).0, listed_days(s).1)
}

/// The conversions of `event_items_for_view` stay within machine integers.
pub open spec fn items_ok(s: AppState) -> bool {
    &&& s.selected_day is None ==> days_in_month_ok(
        s.settings.main_calendar,
        s.year as int,
        s.month as int,
    )
    &&& forall|d: u32|
        listed_days(s).0 <= d <= listed_days(s).1 ==> #[trigger] convert_ok(
            Date { year: s.year, month: s.month, day: d },
            s.settings.main_calendar,
            CalendarKind::Jalali,
        )
}

/// The list `items` holds the occasions `expected`, by reference.
pub open spec fn same_items(items: Seq<(u32, &CalendarEvent)>, expected: Seq<(u32, CalendarEvent)>) -> bool {
    &&& items.len() == expected.len()
    &&& forall|i: int|
        0 <= i < items.len() ==> (#[trigger] items[i]).0 == expected[i].0 && *items[i].1
            == expected[i].1
}

fn push_day_items<'a>(app: &'a AppState, items: &mut Vec<(u32, &'a CalendarEvent)>, d: u32)
    requires
        convert_ok(
            Date { year: app.year, month: app.month, day: d },
            app.settings.main_calendar,
            CalendarKind::Jalali,
        ),
    ensures
        final(items)@.len() == old(items)@.len() + day_items(*app, d).len(),
        forall|i: int| 0 <= i < old(items)@.len() ==> #[trigger] final(items)@[i] == old(items)@[i],
        forall|i: int|
            0 <= i < day_items(*app, d).len() ==> (#[trigger] final(items)@[old(items)@.len() + i]).0
                == day_items(*app, d)[i].0 && *final(items)@[old(items)@.len() + i].1 == day_items(
                *app,
                d,
            )[i].1,
{
    reveal(day_items);
    let jalali = convert(
        Date::new(app.year, app.month, d),
        app.settings.main_calendar,
        CalendarKind::Jalali,
    );
    let found = app.events.events_for_day(jalali.year, jalali.month, jalali.day);
    let ghost before = items@;
    let ghost expected = day_items(*app, d);
    let mut k: usize = 0;
    while k < found.len()
        invariant
            k <= found@.len(),
            expected.len() == found@.len(),
            forall|i: int| 0 <= i < found@.len() ==> *#[trigger] found@[i] == expected[i].1 && expected[i].0 == d,
            items@.len() == before.len() + k,
            forall|i: int| 0 <= i < before.len() ==> #[trigger] items@[i] == before[i],
            forall|i: int|
                0 <= i < k ==> (#[trigger] items@[before.len() + i]).0 == d && items@[before.len() + i].1 == found@[i],
        decreases found@.len() - k,
    {
        items.push((d, found[k]));
        k += 1;
    }
}

pub fn event_items_for_view<'a>(app: &'a AppState) -> (r: Vec<(u32, &'a CalendarEvent)>)
    requires
        items_ok(*app),
    ensures
        same_items(r@, spec_event_items(*app)),
{
    let main = app.settings.main_calendar;
    let first: u32 = match app.selected_day {
        Some(d) => d,
        None => 1,
    };
    let last: u32 = match app.selected_day {
        Some(d) => d,
        None => days_in_month(main, app.year, app.month),
    };
    let mut items: Vec<(u32, &'a CalendarEvent)> = Vec::new();
    let mut day: u64 = first as u64;
    while day <= last as u64
        invariant
            first == listed_days(*app).0,
            last == listed_days(*app).1,
            items_ok(*app),
            first <= day <= last as int + 1 || (first > last && day == first),
            same_items(items@, items_between(*app, first as int, day - 1)),
        decreases last as int + 1 - day,
    {
        let d = day as u32;
        assert(convert_ok(
            Date { year: app.year, month: app.month, day: d },
            app.settings.main_calendar,
            CalendarKind::Jalali,
        ));
        let ghost before = items@;
        push_day_items(app, &mut items, d);
        proof {
            let prev = items_between(*app, first as int, day - 1);
            let expected = day_items(*app, d);
            assert(items_between(*app, first as int, day as int) == prev + expected);
            assert forall|i: int| 0 <= i < items@.len() implies (#[trigger] items@[i]).0 == (prev
                + expected)[i].0 && *items@[i].1 == (prev + expected)[i].1 by {
                if i < before.len() {
                    assert(items@[i] == before[i]);
                } else {
                    assert(items@[before.len() + (i - before.len())].0 == expected[i - before.len()].0);
                }
            }
        }
        day += 1;
    }
    items
}

} // verus!
