//! The month grid and the occasions list as the window draws them: what each
//! cell shows, which cell the pointer is over, the hover tooltip, and the
//! list's title and scrollbar.
use vstd::prelude::*;
use crate::calendar::{
    CalendarKind, Date, convert, convert_ok, from_gregorian, from_gregorian_ok, spec_convert,
    spec_from_gregorian, spec_to_gregorian, to_gregorian, to_gregorian_ok,
};
use crate::events::{CalendarEvent, date_key, on_day};
use crate::layout::{Rect, calendar_column, spec_calendar_column, spec_unscaled, unscaled};
use crate::text::{decimal, int_decimal, persian_number, to_persian_digits};
use crate::view::{
    AppState, ViewMode, BASE_EVENTS_HEIGHT, CELL_HEIGHT, CELL_WIDTH, GRID_LEFT, GRID_TOP,
    GRID_WIDTH, adjacent_date, adjacent_ok, clipboard_date, secondary_dates, secondary_ok,
    spec_adjacent_date, spec_clipboard_date, spec_secondary_dates,
};

verus! {

/// The grid cell (0 = first cell in reading order) at a point in unscaled
/// window coordinates, if the point is on the grid.
pub open spec fn spec_cell_at(rtl: bool, x: int, y: int) -> Option<i32> {
    if GRID_LEFT <= x < GRID_LEFT + GRID_WIDTH && GRID_TOP <= y < GRID_TOP + CELL_HEIGHT * 6 {
        let column = spec_calendar_column((x - GRID_LEFT) / CELL_WIDTH as int, rtl);
        let row = (y - GRID_TOP) / CELL_HEIGHT as int;
        Some((row * 7 + column) as i32)
    } else {
        None
    }
}

pub fn cell_at(rtl: bool, x: i32, y: i32) -> (r: Option<i32>)
    ensures
        r == spec_cell_at(rtl, x as int, y as int),
        r matches Some(c) ==> 0 <= c < 42,
{
    if x >= GRID_LEFT && x < GRID_LEFT + GRID_WIDTH && y >= GRID_TOP && y < GRID_TOP + CELL_HEIGHT
        * 6 {
        let visual_column = (x - GRID_LEFT) / CELL_WIDTH;
        let column = calendar_column(visual_column, rtl);
        let row = (y - GRID_TOP) / CELL_HEIGHT;
        Some(row * 7 + column)
    } else {
        None
    }
}

/// What one cell of the month grid shows.
#[derive(Clone, Debug)]
pub struct GridCell {
    /// The cell's day in the main calendar.
    pub date: Date,
    /// The day belongs to the month on display (not to a neighbour).
    pub in_current_month: bool,
    pub gregorian: Date,
    pub jalali: Date,
    pub is_today: bool,
    pub is_selected: bool,
    /// The last column of the week.
    pub is_friday: bool,
    pub official_holiday: bool,
    pub has_events: bool,
    /// The day in the secondary calendars that are switched on.
    pub secondary: Vec<(CalendarKind, Date)>,
}

/// The day of a grid cell in the main calendar.
pub open spec fn cell_date(s: AppState, cell: int) -> (Date, bool) {
    spec_adjacent_date(s.settings.main_calendar, s.year, s.month, cell)
}

/// The occasions of a Jalali day.
pub open spec fn day_events(s: AppState, j: Date) -> Seq<CalendarEvent> {
    s.events.events().filter(|e: CalendarEvent| on_day(e, j.year, j.month, j.day))
}

/// The holiday list names a Jalali day.
pub open spec fn listed_holiday(s: AppState, j: Date) -> bool {
    exists|i: int|
        0 <= i < s.events.holiday_dates().len() && #[trigger] s.events.holiday_dates()[i]@
            == date_key(j.year, j.month, j.day)
}

/// `c` is what cell `cell` of the grid shows.
pub open spec fn cell_is(c: GridCell, s: AppState, cell: int) -> bool {
    let (p, in_current) = cell_date(s, cell);
    let g = spec_to_gregorian(s.settings.main_calendar, p);
    let j = spec_from_gregorian(CalendarKind::Jalali, g);
    &&& c.date == p
    &&& c.in_current_month == in_current
    &&& c.gregorian == g
    &&& c.jalali == j
    &&& c.is_today == (g == s.today_gregorian)
    &&& c.is_selected == (in_current && s.selected_day == Some(p.day))
    &&& c.is_friday == (cell % 7 == 6)
    &&& c.official_holiday == listed_holiday(s, j)
    &&& c.has_events == (day_events(s, j).len() > 0)
    &&& c.secondary@ == spec_secondary_dates(s.settings, p)
}

/// The conversions of a grid cell stay within machine integers.
pub open spec fn cell_ok(s: AppState, cell: int) -> bool {
    let (p, _) = cell_date(s, cell);
    &&& adjacent_ok(s.settings.main_calendar, s.year, s.month, cell)
    &&& to_gregorian_ok(s.settings.main_calendar, p)
    &&& from_gregorian_ok(CalendarKind::Jalali, spec_to_gregorian(s.settings.main_calendar, p))
    &&& secondary_ok(s.settings, p)
}

pub fn grid_cell(app: &AppState, cell: i32) -> (r: GridCell)
    requires
        0 <= cell < 42,
        cell_ok(*app, cell as int),
    ensures
        cell_is(r, *app, cell as int),
{
    let (primary, in_current_month) = adjacent_date(
        app.settings.main_calendar,
        app.year,
        app.month,
        cell,
    );
    let gregorian = to_gregorian(app.settings.main_calendar, primary);
    let jalali = from_gregorian(CalendarKind::Jalali, gregorian);
    let is_today = gregorian == app.today_gregorian;
    let is_selected = in_current_month && match app.selected_day {
        Some(d) => d == primary.day,
        None => false,
    };
    let official_holiday = app.events.is_official_holiday(jalali.year, jalali.month, jalali.day);
    let has_events = app.events.events_for_day(jalali.year, jalali.month, jalali.day).len() > 0;
    let secondary = secondary_dates(app, primary);
    GridCell {
        date: primary,
        in_current_month,
        gregorian,
        jalali,
        is_today,
        is_selected,
        is_friday: cell % 7 == 6,
        official_holiday,
        has_events,
        secondary,
    }
}

// ---------------------------------------------------------------------------
// Hover and copy
// ---------------------------------------------------------------------------

/// The cell whose occasions the tooltip shows for the pointer at (x, y):
/// a grid cell of the month view whose day has occasions.
pub open spec fn spec_hover_cell(s: AppState, x: int, y: int) -> Option<i32> {
    if s.view == ViewMode::Calendar {
        match spec_cell_at(s.settings.calendar_rtl, x, y) {
            Some(cell) => {
                let (p, _) = cell_date(s, cell as int);
                let j = spec_convert(p, s.settings.main_calendar, CalendarKind::Jalali);
                if day_events(s, j).len() > 0 {
                    Some(cell)
                } else {
                    None
                }
            },
            None => None,
        }
    } else {
        None
    }
}

/// Hovering stays within machine integers.
pub open spec fn hover_ok(s: AppState, x: int, y: int) -> bool {
    s.view == ViewMode::Calendar ==> match spec_cell_at(s.settings.calendar_rtl, x, y) {
        Some(cell) => {
            let (p, _) = cell_date(s, cell as int);
            adjacent_ok(s.settings.main_calendar, s.year, s.month, cell as int) && convert_ok(
                p,
                s.settings.main_calendar,
                CalendarKind::Jalali,
            )
        },
        None => true,
    }
}

/// Records the cell under the pointer (window coordinates at 100%); true
/// when it changed, so that the window is redrawn.
pub fn update_day_hover(app: &mut AppState, x: i32, y: i32) -> (changed: bool)
    requires
        hover_ok(*old(app), x as int, y as int),
    ensures
        *final(app) == (AppState { hovered_cell: spec_hover_cell(*old(app), x as int, y as int), ..*old(app) }),
        changed == (old(app).hovered_cell != spec_hover_cell(*old(app), x as int, y as int)),
{
    let next = if app.view == ViewMode::Calendar {
        match cell_at(app.settings.calendar_rtl, x, y) {
            Some(cell) => {
                let (primary, _) = adjacent_date(
                    app.settings.main_calendar,
                    app.year,
                    app.month,
                    cell,
                );
                let jalali = convert(primary, app.settings.main_calendar, CalendarKind::Jalali);
                if app.events.events_for_day(jalali.year, jalali.month, jalali.day).len() > 0 {
                    Some(cell)
                } else {
                    None
                }
            },
            None => None,
        }
    } else {
        None
    };
    let changed = app.hovered_cell != next;
    app.hovered_cell = next;
    changed
}

/// The text copied for a click at window coordinates (x, y): the date of the
/// grid cell there, in the main calendar.
pub open spec fn spec_copy_text(s: AppState, x: int, y: int) -> Option<Seq<char>> {
    let scale = s.settings.ui_scale as int;
    if s.view != ViewMode::Calendar {
        None
    } else {
        match spec_cell_at(
            s.settings.calendar_rtl,
            spec_unscaled(x, scale) as int,
            spec_unscaled(y, scale) as int,
        ) {
            Some(cell) => Some(
                spec_clipboard_date(s.settings.main_calendar, cell_date(s, cell as int).0),
            ),
            None => None,
        }
    }
}

/// Copying stays within machine integers.
pub open spec fn copy_ok(s: AppState, x: int, y: int) -> bool {
    let scale = s.settings.ui_scale as int;
    &&& scale > 0
    &&& s.view == ViewMode::Calendar ==> match spec_cell_at(
        s.settings.calendar_rtl,
        spec_unscaled(x, scale) as int,
        spec_unscaled(y, scale) as int,
    ) {
        Some(cell) => adjacent_ok(s.settings.main_calendar, s.year, s.month, cell as int),
        None => true,
    }
}

pub fn copy_text_at(app: &AppState, x: i32, y: i32) -> (r: Option<String>)
    requires
        copy_ok(*app, x as int, y as int),
    ensures
        match r {
            Some(t) => spec_copy_text(*app, x as int, y as int) == Some(t@),
            None => spec_copy_text(*app, x as int, y as int) is None,
        },
{
    if app.view != ViewMode::Calendar {
        return None;
    }
    let ux = unscaled(x, app.settings.ui_scale);
    let uy = unscaled(y, app.settings.ui_scale);
    match cell_at(app.settings.calendar_rtl, ux, uy) {
        Some(cell) => {
            let (date, _) = adjacent_date(app.settings.main_calendar, app.year, app.month, cell);
            Some(clipboard_date(app.settings.main_calendar, date))
        },
        None => None,
    }
}

/// Occasions as bullet lines, one per line.
pub open spec fn bullet_lines(es: Seq<CalendarEvent>) -> Seq<char>
    decreases es.len(),
{
    if es.len() == 0 {
        Seq::empty()
    } else if es.len() == 1 {
        "• "@ + es[0].title@
    } else {
        bullet_lines(es.drop_last()) + "\n"@ + "• "@ + es.last().title@
    }
}

/// Where the hover tooltip of a cell stands: centred on the cell's column
/// within the window, below the cell in the upper half of the grid and
/// above it in the lower half; `lines` is the number of lines it shows.
pub open spec fn spec_tooltip_rect(cell: int, lines: int, rtl: bool) -> Rect {
    let row = cell / 7;
    let visual_column = spec_calendar_column(cell % 7, rtl);
    let width = 286int;
    let height = 34 + lines * 22;
    let center = GRID_LEFT + visual_column * CELL_WIDTH + CELL_WIDTH / 2;
    let raw = center - width / 2;
    let left = if raw < 12 { 12 } else if raw > 430 - width - 12 { 430 - width - 12 } else { raw };
    let top = if row <= 2 {
        GRID_TOP + (row + 1) * CELL_HEIGHT + 4
    } else {
        GRID_TOP + row * CELL_HEIGHT - height - 4
    };
    Rect {
        left: left as i32,
        top: top as i32,
        right: (left + width) as i32,
        bottom: (top + height) as i32,
    }
}

/// The tooltip of a grid cell, with one to three lines, lies within the
/// window's width, 12 pixels from its sides, and never covers the cell's row.
pub proof fn lemma_tooltip_placement(cell: int, lines: int, rtl: bool)
    requires
        0 <= cell < 42,
        1 <= lines <= 3,
    ensures
        ({
            let r = spec_tooltip_rect(cell, lines, rtl);
            let row_top = GRID_TOP + (cell / 7) * CELL_HEIGHT;
            &&& 12 <= r.left && r.right <= 430 - 12
            &&& r.bottom < row_top || row_top + CELL_HEIGHT < r.top
        }),
{
    let row = cell / 7;
    assert(0 <= row <= 5);
    assert(0 <= spec_calendar_column(cell % 7, rtl) <= 6);
}

/// The tooltip over the hovered cell: where it stands and its text, the
/// first three occasions of the cell's day; none when that day has none.
pub open spec fn spec_day_tooltip(s: AppState) -> Option<(Rect, Seq<char>)> {
    match s.hovered_cell {
        Some(cell) => {
            let (p, _) = cell_date(s, cell as int);
            let j = spec_convert(p, s.settings.main_calendar, CalendarKind::Jalali);
            let es = day_events(s, j);
            if es.len() == 0 {
                None
            } else {
                let shown = if es.len() > 3 { es.take(3) } else { es };
                Some((spec_tooltip_rect(cell as int, shown.len() as int, s.settings.calendar_rtl), bullet_lines(shown)))
            }
        },
        None => None,
    }
}

/// The tooltip's conversions stay within machine integers.
pub open spec fn tooltip_ok(s: AppState) -> bool {
    match s.hovered_cell {
        Some(cell) => {
            &&& 0 <= cell < 42
            &&& adjacent_ok(s.settings.main_calendar, s.year, s.month, cell as int)
            &&& convert_ok(cell_date(s, cell as int).0, s.settings.main_calendar, CalendarKind::Jalali)
        },
        None => true,
    }
}

fn tooltip_rect(cell: i32, lines: i32, rtl: bool) -> (r: Rect)
    requires
        0 <= cell < 42,
        0 <= lines <= 3,
    ensures
        r == spec_tooltip_rect(cell as int, lines as int, rtl),
{
    let row: i32 = cell / 7;
    let visual_column: i32 = calendar_column(cell % 7, rtl);
    let width: i32 = 286;
    let height: i32 = 34 + lines * 22;
    let center: i32 = GRID_LEFT + visual_column * CELL_WIDTH + CELL_WIDTH / 2;
    let raw: i32 = center - width / 2;
    let left: i32 = if raw < 12 { 12 } else if raw > 430 - width - 12 { 430 - width - 12 } else { raw };
    let top: i32 = if row <= 2 {
        GRID_TOP + (row + 1) * CELL_HEIGHT + 4
    } else {
        GRID_TOP + row * CELL_HEIGHT - height - 4
    };
    Rect { left, top, right: left + width, bottom: top + height }
}

pub fn day_tooltip(app: &AppState) -> (r: Option<(Rect, String)>)
    requires
        tooltip_ok(*app),
    ensures
        match r {
            Some((rect, text)) => spec_day_tooltip(*app) == Some((rect, text@)),
            None => spec_day_tooltip(*app) is None,
        },
{
    let cell = match app.hovered_cell {
        Some(c) => c,
        None => return None,
    };
    let (primary, _) = adjacent_date(app.settings.main_calendar, app.year, app.month, cell);
    let jalali = convert(primary, app.settings.main_calendar, CalendarKind::Jalali);
    let events = app.events.events_for_day(jalali.year, jalali.month, jalali.day);
    let ghost es = day_events(*app, jalali);
    if events.len() == 0 {
        return None;
    }
    let shown_count: usize = if events.len() > 3 { 3 } else { events.len() };
    let ghost shown = if es.len() > 3 { es.take(3) } else { es };
    let mut text = String::new();
    let mut k: usize = 0;
    while k < shown_count
        invariant
            k <= shown_count,
            shown_count == shown.len(),
            shown.len() <= es.len(),
            events@.len() == es.len(),
            forall|i: int| 0 <= i < es.len() ==> *#[trigger] events@[i] == es[i],
            forall|i: int| 0 <= i < shown.len() ==> #[trigger] shown[i] == es[i],
            text@ == bullet_lines(shown.take(k as int)),
        decreases shown_count - k,
    {
        proof {
            reveal_strlit("\n");
            reveal_strlit("• ");
        }
        let title = &events[k].title;
        if k > 0 {
            text.append("\n");
        }
        text.append("• ");
        text.append(title.as_str());
        proof {
            assert(shown.take(k + 1).drop_last() =~= shown.take(k as int));
            assert(shown.take(k + 1).last() == shown[k as int]);
            if k == 0 {
                assert(shown.take(0) =~= Seq::<CalendarEvent>::empty());
                assert(shown.take(1)[0] == shown[0]);
            }
        }
        k += 1;
    }
    assert(shown.take(shown_count as int) =~= shown);
    let rect = tooltip_rect(cell, shown_count as i32, app.settings.calendar_rtl);
    Some((rect, text))
}

// ---------------------------------------------------------------------------
// The occasions list
// ---------------------------------------------------------------------------

/// The list's title: the selected day's occasions, or the month's.
pub open spec fn spec_events_title(s: AppState) -> Seq<char> {
    match s.selected_day {
        Some(day) => "مناسبت‌های روز "@ + to_persian_digits(int_decimal(day as int)),
        None => "مناسبت‌های این ماه"@,
    }
}

pub fn events_title(app: &AppState) -> (r: String)
    ensures
        r@ == spec_events_title(*app),
{
    match app.selected_day {
        Some(day) => {
            let mut text = String::from_str("مناسبت‌های روز ");
            let digits = persian_number(day as i64);
            text.append(digits.as_str());
            text
        },
        None => String::from_str("مناسبت‌های این ماه"),
    }
}

/// What the empty list says: nothing is recorded for the days shown, or the
/// database describes another year.
pub open spec fn spec_empty_events_message(s: AppState) -> Seq<char> {
    let first = spec_convert(
        Date { year: s.year, month: s.month, day: 1 },
        s.settings.main_calendar,
        CalendarKind::Jalali,
    );
    if s.events.year() == first.year {
        "برای این بازه مناسبتی ثبت نشده است."@
    } else {
        "فایل رویداد پیوست فقط اطلاعات سال ۱۴۰۵ را دارد."@
    }
}

pub fn empty_events_message(app: &AppState) -> (r: &'static str)
    requires
        convert_ok(
            Date { year: app.year, month: app.month, day: 1 },
            app.settings.main_calendar,
            CalendarKind::Jalali,
        ),
    ensures
        r@ == spec_empty_events_message(*app),
{
    let first = convert(
        Date::new(app.year, app.month, 1),
        app.settings.main_calendar,
        CalendarKind::Jalali,
    );
    if app.events.calendar_year() == first.year {
        "برای این بازه مناسبتی ثبت نشده است."
    } else {
        "فایل رویداد پیوست فقط اطلاعات سال ۱۴۰۵ را دارد."
    }
}

/// The first of the (at most three) occasions shown: the scroll position,
/// at most the last position that still fills the list.
pub open spec fn spec_first_visible(count: int, scroll: int) -> int {
    let max_scroll = if count > 3 { count - 3 } else { 0 };
    if scroll < max_scroll { scroll } else { max_scroll }
}

pub fn first_visible(count: usize, scroll: usize) -> (r: usize)
    ensures
        r == spec_first_visible(count as int, scroll as int),
{
    let max_scroll = if count > 3 { count - 3 } else { 0 };
    if scroll < max_scroll { scroll } else { max_scroll }
}

/// Offset and height of the scrollbar's thumb, on a track of the given
/// height, for `count` occasions of which the list starts at `start`.
pub open spec fn spec_scroll_thumb(track_height: int, count: int, start: int) -> (int, int) {
    let thumb = if track_height * 3 / count >= 18 { track_height * 3 / count } else { 18 };
    let max_scroll = if count > 3 { count - 3 } else { 0 };
    let max_offset = track_height - thumb;
    let offset = if max_scroll == 0 { 0 } else { max_offset * start / max_scroll };
    (offset, thumb)
}

/// The thumb of the occasions scrollbar, shown when there are more than
/// three occasions.
pub fn scroll_thumb(app: &AppState, count: usize, start: usize) -> (r: (i32, i32))
    requires
        3 < count <= i32::MAX,
        start <= count - 3,
    ensures
        ({
            let top = crate::view::spec_events_top(*app);
            let track_height = (top + BASE_EVENTS_HEIGHT - 8 - 10) - (top + 40);
            (r.0 as int, r.1 as int) == spec_scroll_thumb(track_height, count as int, start as int)
        }),
{
    let top = crate::view::events_top(app);
    let bottom = top + BASE_EVENTS_HEIGHT - 8;
    let track_top = top + 40;
    let track_bottom = bottom - 10;
    let track_height = track_bottom - track_top;
    assert(track_height == 78);
    let ratio = (track_height * 3) / count as i32;
    assert(ratio <= 58) by (nonlinear_arith)
        requires
            ratio == 234int / (count as int),
            count >= 4,
    ;
    let thumb_height = if ratio >= 18 { ratio } else { 18 };
    let max_scroll = count - 3;
    let max_offset = track_height - thumb_height;
    assert(0 <= max_offset <= 60);
    assert(0 <= max_offset * start <= 60 * (i32::MAX as int)) by (nonlinear_arith)
        requires
            0 <= max_offset <= 60,
            0 <= start <= i32::MAX,
    ;
    let product: i64 = max_offset as i64 * start as i64;
    assert(0 <= product <= 60 * (max_scroll as int)) by (nonlinear_arith)
        requires
            0 <= max_offset <= 60,
            0 <= start <= max_scroll,
            product == max_offset * start,
    ;
    let thumb_offset: i64 = product / max_scroll as i64;
    assert(0 <= thumb_offset <= 60) by (nonlinear_arith)
        requires
            0 <= product <= 60 * (max_scroll as int),
            max_scroll > 0,
            thumb_offset as int == (product as int) / (max_scroll as int),
    ;
    (thumb_offset as i32, thumb_height)
}

// ---------------------------------------------------------------------------
// The tray icon's day number
// ---------------------------------------------------------------------------

/// The day number drawn on the tray icon, in English or Persian digits.
pub open spec fn spec_tray_day_text(day: u32, english_digits: bool) -> Seq<char> {
    if english_digits {
        int_decimal(day as int)
    } else {
        to_persian_digits(int_decimal(day as int))
    }
}

pub fn tray_day_text(day: u32, english_digits: bool) -> (r: String)
    ensures
        r@ == spec_tray_day_text(day, english_digits),
{
    if english_digits {
        decimal(day as i64)
    } else {
        persian_number(day as i64)
    }
}

} // verus!
