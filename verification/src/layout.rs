//! Window geometry: DPI scaling, calendar columns, the settings window beside
//! the calendar, and hit-testing of the settings controls.
use vstd::prelude::*;
use crate::arith::{fits_i32, tdiv};
use crate::settings::{Settings, Theme};
use crate::theme::colors_of;

verus! {

/// Width of the settings panel at 100%.
pub const WIDTH: i32 = 740;

/// Height of the settings panel at 100%.
pub const HEIGHT: i32 = 600;

/// Width of the calendar window at 100%.
pub const BASE_WIDTH: i32 = 430;

/// A screen rectangle; `right` and `bottom` are exclusive.
#[derive(Clone, Copy, Debug, PartialEq, Eq, Structural)]
pub struct Rect {
    pub left: i32,
    pub top: i32,
    pub right: i32,
    pub bottom: i32,
}

/// `value` at `scale` percent, rounded half up (toward zero for negatives).
pub open spec fn spec_scaled(value: int, scale: int) -> i32 {
    tdiv(value * scale + 50, 100) as i32
}

/// Inverse of `scaled`: `value` at 100% of a `scale` percent coordinate.
pub open spec fn spec_unscaled(value: int, scale: int) -> i32 {
    tdiv(value * 100 + scale / 2, scale) as i32
}

pub fn scaled(value: i32, scale: u32) -> (r: i32)
    ensures
        r == spec_scaled(value as int, scale as int),
{
    proof {
        assert(i32::MIN * u32::MAX <= value * scale <= i32::MAX * u32::MAX) by (nonlinear_arith)
            requires
                i32::MIN <= value <= i32::MAX,
                0 <= scale <= u32::MAX,
        ;
    }
    ((value as i64 * scale as i64 + 50) / 100) as i32
}

pub fn unscaled(value: i32, scale: u32) -> (r: i32)
    requires
        scale > 0,
    ensures
        r == spec_unscaled(value as int, scale as int),
{
    ((value as i64 * 100 + scale as i64 / 2) / scale as i64) as i32
}

/// At 100% or more, a coordinate scaled to the screen and read back is the
/// coordinate itself, so a click lands where the control was drawn.
pub proof fn lemma_unscaled_of_scaled(value: int, scale: int)
    requires
        0 <= value,
        100 <= scale,
        fits_i32((value * scale + 50) / 100),
    ensures
        spec_unscaled(spec_scaled(value, scale) as int, scale) == value,
{
    let w = (value * scale + 50) / 100;
    assert(w >= 0) by (nonlinear_arith)
        requires
            0 <= value,
            100 <= scale,
            w == (value * scale + 50) / 100,
    ;
    assert(spec_scaled(value, scale) as int == w);
    let a = w * 100 + scale / 2;
    assert(a >= 0);
    assert(value * scale <= a && a < (value + 1) * scale) by (nonlinear_arith)
        requires
            0 <= value,
            100 <= scale,
            w == (value * scale + 50) / 100,
            a == w * 100 + scale / 2,
    ;
    assert(a / scale == value) by (nonlinear_arith)
        requires
            0 <= value,
            100 <= scale,
            value * scale <= a,
            a < (value + 1) * scale,
    ;
    assert(value <= w) by (nonlinear_arith)
        requires
            0 <= value,
            100 <= scale,
            value * scale <= w * 100 + scale / 2,
            0 <= w,
    ;
    assert(tdiv(a, scale) == value);
    assert(spec_unscaled(w, scale) == value as i32);
}

pub fn scaled_rect(rect: Rect, scale: u32) -> (r: Rect)
    ensures
        r == (Rect {
            left: spec_scaled(rect.left as int, scale as int),
            top: spec_scaled(rect.top as int, scale as int),
            right: spec_scaled(rect.right as int, scale as int),
            bottom: spec_scaled(rect.bottom as int, scale as int),
        }),
{
    Rect {
        left: scaled(rect.left, scale),
        top: scaled(rect.top, scale),
        right: scaled(rect.right, scale),
        bottom: scaled(rect.bottom, scale),
    }
}

/// Visual column of a weekday column: mirrored for right-to-left layouts.
pub open spec fn spec_calendar_column(column: int, rtl: bool) -> int {
    if rtl {
        6 - column
    } else {
        column
    }
}

pub fn calendar_column(column: i32, rtl: bool) -> (r: i32)
    requires
        rtl ==> column >= 6 - i32::MAX,
    ensures
        r == spec_calendar_column(column as int, rtl),
{
    if rtl {
        6 - column
    } else {
        column
    }
}

/// Mirroring twice gives the column back.
pub proof fn lemma_calendar_column_involution(column: int, rtl: bool)
    ensures
        spec_calendar_column(spec_calendar_column(column, rtl), rtl) == column,
{
}

// ---------------------------------------------------------------------------
// The settings window beside the calendar
// ---------------------------------------------------------------------------

/// Space left for the settings panel beside the calendar (at least 1).
pub open spec fn available_width(work_width: int, calendar_width: int, scrollbar: int) -> int {
    let a = work_width - calendar_width - 24 - scrollbar;
    if a < 1 {
        1
    } else {
        a
    }
}

/// The requested scale, reduced so that the panel fits (never below 1).
pub open spec fn spec_fit_scale(
    requested: int,
    work_width: int,
    calendar_width: int,
    scrollbar: int,
) -> int {
    let f = available_width(work_width, calendar_width, scrollbar) * 100 / (WIDTH as int);
    let limit = if f < 1 { 1 } else { f };
    if requested < limit {
        requested
    } else {
        limit
    }
}

/// Whenever the work area leaves the panel room for at least 1% of its
/// width, the panel at the fitted scale, with its scrollbar, fits beside the
/// calendar with the three 8-pixel gaps.
pub proof fn lemma_fit_scale_fits(requested: int, work_width: int, calendar_width: int, scrollbar: int)
    requires
        0 <= requested,
        WIDTH <= 100 * (work_width - calendar_width - 24 - scrollbar),
        fit_scale_ok(work_width, calendar_width, scrollbar),
    ensures
        spec_scaled(WIDTH as int, spec_fit_scale(requested, work_width, calendar_width, scrollbar))
            + scrollbar + calendar_width + 24 <= work_width,
{
    let available = work_width - calendar_width - 24 - scrollbar;
    let f = spec_fit_scale(requested, work_width, calendar_width, scrollbar);
    assert(available_width(work_width, calendar_width, scrollbar) == available);
    assert(0 <= f && f <= available * 100 / 740);
    assert(740 * f <= available * 100) by (nonlinear_arith)
        requires
            0 <= f <= available * 100 / 740,
            available >= 1,
    ;
    let w = (740 * f + 50) / 100;
    assert(w <= available) by (nonlinear_arith)
        requires
            740 * f <= available * 100,
            w == (740 * f + 50) / 100,
            0 <= f,
    ;
    assert(0 <= w);
    assert(fits_i32(available));
    assert(tdiv(740 * f + 50, 100) == w);
    assert(spec_scaled(WIDTH as int, f) == w as i32);
}

pub open spec fn fit_scale_ok(work_width: int, calendar_width: int, scrollbar: int) -> bool {
    &&& fits_i32(work_width - calendar_width)
    &&& fits_i32(work_width - calendar_width - 24)
    &&& fits_i32(work_width - calendar_width - 24 - scrollbar)
    &&& fits_i32(available_width(work_width, calendar_width, scrollbar) * 100)
}

pub fn fit_scale(requested: u32, work_width: i32, calendar_width: i32, scrollbar: i32) -> (r: u32)
    requires
        fit_scale_ok(work_width as int, calendar_width as int, scrollbar as int),
    ensures
        r == spec_fit_scale(requested as int, work_width as int, calendar_width as int, scrollbar as int),
{
    let raw = work_width - calendar_width - 24 - scrollbar;
    let available = if raw < 1 { 1 } else { raw };
    let f = available * 100 / WIDTH;
    let limit: u32 = if f < 1 { 1 } else { f as u32 };
    if requested < limit {
        requested
    } else {
        limit
    }
}

/// Gap between the windows and the edges of the work area.
pub open spec fn gap() -> int {
    8
}

pub open spec fn clamp_int(v: int, lo: int, hi: int) -> int {
    if v < lo {
        lo
    } else if v > hi {
        hi
    } else {
        v
    }
}

pub open spec fn max_int(a: int, b: int) -> int {
    if a < b {
        b
    } else {
        a
    }
}

/// Calendar x, settings x and settings y: the pair kept within the work
/// area, the settings panel preferably left of the calendar.
pub open spec fn spec_positions(work: Rect, calendar: Rect, width: int, height: int) -> (
    int,
    int,
    int,
) {
    let cw = calendar.right - calendar.left;
    let minimum = work.left + gap();
    let maximum = work.right - gap();
    let cx = clamp_int(calendar.left as int, minimum, max_int(maximum - cw, minimum));
    let y = clamp_int(
        tdiv(calendar.top + calendar.bottom - height, 2),
        work.top + gap(),
        max_int(work.bottom - gap() - height, work.top + gap()),
    );
    if cx - gap() - width >= minimum {
        (cx, cx - gap() - width, y)
    } else if cx + cw + gap() + width <= maximum {
        (cx, cx + cw + gap(), y)
    } else {
        let cx2 = max_int(maximum - cw, minimum);
        (cx2, max_int(cx2 - gap() - width, minimum), y)
    }
}

/// The arithmetic of `positions` stays within `i32`.
pub open spec fn positions_ok(work: Rect, calendar: Rect, width: int, height: int) -> bool {
    let cw = calendar.right - calendar.left;
    &&& fits_i32(cw)
    &&& fits_i32(work.left + 8)
    &&& fits_i32(work.right - 8)
    &&& fits_i32(work.right - 8 - cw)
    &&& fits_i32(work.left + 8 + cw + 8 + width)
    &&& fits_i32(work.right - 8 - cw - 8 - width)
    &&& fits_i32(work.left + 8 - 8 - width)
    &&& fits_i32(work.right - 8 + 8 + width)
    &&& fits_i32(calendar.top + calendar.bottom)
    &&& fits_i32(calendar.top + calendar.bottom - height)
    &&& fits_i32(work.bottom - 8 - height)
    &&& fits_i32(work.top + 8)
    &&& fits_i32(work.bottom - 8)
    &&& 0 <= width
}

pub fn positions(work: Rect, calendar: Rect, width: i32, height: i32) -> (r: (i32, i32, i32))
    requires
        positions_ok(work, calendar, width as int, height as int),
    ensures
        (r.0 as int, r.1 as int, r.2 as int) == spec_positions(
            work,
            calendar,
            width as int,
            height as int,
        ),
{
    let gap: i32 = 8;
    let calendar_width = calendar.right - calendar.left;
    let minimum = work.left + gap;
    let maximum = work.right - gap;
    let upper = if maximum - calendar_width < minimum { minimum } else { maximum - calendar_width };
    let mut calendar_x = if calendar.left < minimum {
        minimum
    } else if calendar.left > upper {
        upper
    } else {
        calendar.left
    };
    let settings_x = if calendar_x - gap - width >= minimum {
        calendar_x - gap - width
    } else if calendar_x + calendar_width + gap + width <= maximum {
        calendar_x + calendar_width + gap
    } else {
        calendar_x = upper;
        if calendar_x - gap - width < minimum { minimum } else { calendar_x - gap - width }
    };
    let ideal = (calendar.top + calendar.bottom - height) / 2;
    let low = work.top + gap;
    let high = if work.bottom - gap - height < low { low } else { work.bottom - gap - height };
    let y = if ideal < low {
        low
    } else if ideal > high {
        high
    } else {
        ideal
    };
    (calendar_x, settings_x, y)
}

/// When the work area holds both windows side by side and the panel's
/// height, the calendar and the panel lie within it and do not overlap.
pub proof fn lemma_positions_fit(work: Rect, calendar: Rect, width: int, height: int)
    requires
        calendar.right - calendar.left >= 0,
        width >= 0,
        height >= 0,
        (calendar.right - calendar.left) + width + 3 * gap() <= work.right - work.left,
        height + 2 * gap() <= work.bottom - work.top,
    ensures
        ({
            let (cx, sx, y) = spec_positions(work, calendar, width, height);
            let cw = calendar.right - calendar.left;
            &&& work.left <= cx && cx + cw <= work.right
            &&& work.left <= sx && sx + width <= work.right
            &&& sx + width <= cx || cx + cw <= sx
            &&& work.top <= y && y + height <= work.bottom
        }),
{
}

// ---------------------------------------------------------------------------
// Placing the calendar window
// ---------------------------------------------------------------------------

/// Where the calendar pops up: centred under the pointer's x, at least 8
/// pixels inside the work area's sides (the right side winning when the
/// window is wider than the area), 8 pixels above the work area's bottom.
pub open spec fn spec_popup_origin(cursor_x: int, work: Rect, width: int, height: int) -> (int, int) {
    let centred = cursor_x - tdiv(width, 2);
    let low = work.left + 8;
    let high = work.right - width - 8;
    let x = if centred < low { low } else { centred };
    let x = if x > high { high } else { x };
    (x, work.bottom - height - 8)
}

pub fn popup_origin(cursor_x: i32, work: Rect, width: i32, height: i32) -> (r: (i32, i32))
    requires
        fits_i32(cursor_x - tdiv(width as int, 2)),
        fits_i32(work.left + 8),
        fits_i32(work.right - width),
        fits_i32(work.right - width - 8),
        fits_i32(work.bottom - height),
        fits_i32(work.bottom - height - 8),
    ensures
        (r.0 as int, r.1 as int) == spec_popup_origin(cursor_x as int, work, width as int, height as int),
{
    let centred = cursor_x - width / 2;
    let low = work.left + 8;
    let high = work.right - width - 8;
    let x = if centred < low { low } else { centred };
    let x = if x > high { high } else { x };
    (x, work.bottom - height - 8)
}

/// The top edge of the calendar window after it takes a new height: its
/// bottom edge stays where it was when `keep_bottom`, else its top edge.
pub open spec fn spec_resized_top(window: Rect, height: int, keep_bottom: bool) -> int {
    if keep_bottom { window.bottom - height } else { window.top as int }
}

pub fn resized_top(window: Rect, height: i32, keep_bottom: bool) -> (r: i32)
    requires
        keep_bottom ==> fits_i32(window.bottom - height),
    ensures
        r == spec_resized_top(window, height as int, keep_bottom),
{
    if keep_bottom {
        window.bottom - height
    } else {
        window.top
    }
}

/// A window that fits in the work area pops up inside it.
pub proof fn lemma_popup_inside(cursor_x: int, work: Rect, width: int, height: int)
    requires
        0 <= width,
        0 <= height,
        width + 16 <= work.right - work.left,
        height + 8 <= work.bottom - work.top,
    ensures
        ({
            let (x, y) = spec_popup_origin(cursor_x, work, width, height);
            &&& work.left <= x && x + width <= work.right
            &&& work.top <= y && y + height <= work.bottom
        }),
{
}

// ---------------------------------------------------------------------------
// Scrolling the settings window
// ---------------------------------------------------------------------------

/// The scroll position kept for a requested one: within the panel, whose
/// height is `total`, seen through a window `client` high.
pub open spec fn spec_clamp_scroll(position: int, total: int, client: int) -> int {
    let most = if total - client > 0 { total - client } else { 0 };
    if position < 0 {
        0
    } else if position > most {
        most
    } else {
        position
    }
}

pub fn clamp_scroll(position: i32, total: i32, client: i32) -> (r: i32)
    requires
        fits_i32(total - client),
    ensures
        r == spec_clamp_scroll(position as int, total as int, client as int),
{
    let most = if total - client > 0 { total - client } else { 0 };
    if position < 0 {
        0
    } else if position > most {
        most
    } else {
        position
    }
}

/// The scroll position after bringing the span from `top` to `bottom` into
/// view: scrolled up to its top when it starts above the window, down to its
/// bottom when it ends below, else unchanged.
pub open spec fn spec_reveal_scroll(position: int, top: int, bottom: int, total: int, client: int) -> int {
    if top < position {
        spec_clamp_scroll(top, total, client)
    } else if bottom > position + client {
        spec_clamp_scroll(bottom - client, total, client)
    } else {
        position
    }
}

pub fn reveal_scroll(position: i32, top: i32, bottom: i32, total: i32, client: i32) -> (r: i32)
    requires
        fits_i32(total - client),
        fits_i32(position + client),
        fits_i32(bottom - client),
    ensures
        r == spec_reveal_scroll(position as int, top as int, bottom as int, total as int, client as int),
{
    if top < position {
        clamp_scroll(top, total, client)
    } else if bottom > position + client {
        clamp_scroll(bottom - client, total, client)
    } else {
        position
    }
}

/// The scrollbar's requests, by their Windows numbers.
pub const SCROLL_LINE_UP: i32 = 0;
pub const SCROLL_LINE_DOWN: i32 = 1;
pub const SCROLL_PAGE_UP: i32 = 2;
pub const SCROLL_PAGE_DOWN: i32 = 3;
pub const SCROLL_THUMB_POSITION: i32 = 4;
pub const SCROLL_THUMB_TRACK: i32 = 5;
pub const SCROLL_TOP: i32 = 6;
pub const SCROLL_BOTTOM: i32 = 7;

/// The position a scrollbar request asks for, before it is kept within the
/// panel: a line is 32 units, a page the window's height.
pub open spec fn spec_scrollbar_target(request: i32, position: int, page: u32, track: int, max: int) -> int {
    if request == SCROLL_LINE_UP {
        position - 32
    } else if request == SCROLL_LINE_DOWN {
        position + 32
    } else if request == SCROLL_PAGE_UP {
        position - (page as i32)
    } else if request == SCROLL_PAGE_DOWN {
        position + (page as i32)
    } else if request == SCROLL_THUMB_TRACK || request == SCROLL_THUMB_POSITION {
        track
    } else if request == SCROLL_TOP {
        0
    } else if request == SCROLL_BOTTOM {
        max
    } else {
        position
    }
}

/// The request's arithmetic stays within machine integers.
pub open spec fn scrollbar_ok(request: i32, position: int, page: u32) -> bool {
    &&& request == SCROLL_LINE_UP ==> fits_i32(position - 32)
    &&& request == SCROLL_LINE_DOWN ==> fits_i32(position + 32)
    &&& request == SCROLL_PAGE_UP ==> fits_i32(position - (page as i32))
    &&& request == SCROLL_PAGE_DOWN ==> fits_i32(position + (page as i32))
}

pub fn scrollbar_target(request: i32, position: i32, page: u32, track: i32, max: i32) -> (r: i32)
    requires
        scrollbar_ok(request, position as int, page),
    ensures
        r == spec_scrollbar_target(request, position as int, page, track as int, max as int),
{
    if request == SCROLL_LINE_UP {
        position - 32
    } else if request == SCROLL_LINE_DOWN {
        position + 32
    } else if request == SCROLL_PAGE_UP {
        position - page as i32
    } else if request == SCROLL_PAGE_DOWN {
        position + page as i32
    } else if request == SCROLL_THUMB_TRACK || request == SCROLL_THUMB_POSITION {
        track
    } else if request == SCROLL_TOP {
        0
    } else if request == SCROLL_BOTTOM {
        max
    } else {
        position
    }
}

/// The position the mouse wheel asks for: a notch (120 units of `delta`)
/// moves 48 unscaled units, up for a positive `delta`.
pub open spec fn spec_wheel_target(position: int, delta: int, scale: int) -> int {
    position - tdiv(delta * spec_scaled(48, scale), 120)
}

pub fn wheel_target(position: i32, delta: i32, scale: u32) -> (r: i32)
    requires
        fits_i32(delta * spec_scaled(48, scale as int)),
        fits_i32(spec_wheel_target(position as int, delta as int, scale as int)),
    ensures
        r == spec_wheel_target(position as int, delta as int, scale as int),
{
    let step = scaled(48, scale);
    position - delta * step / 120
}

/// Once the window is at least as high as the panel there is nothing to
/// scroll, and otherwise a kept position is kept again.
pub proof fn lemma_clamp_scroll(position: int, total: int, client: int)
    ensures
        0 <= spec_clamp_scroll(position, total, client),
        client >= total ==> spec_clamp_scroll(position, total, client) == 0,
        spec_clamp_scroll(spec_clamp_scroll(position, total, client), total, client)
            == spec_clamp_scroll(position, total, client),
{
}

/// Revealing a control that lies on the panel and is no higher than the
/// window, from a kept scroll position, leaves the whole control in view.
pub proof fn lemma_reveal_shows(position: int, top: int, bottom: int, total: int, client: int)
    requires
        0 <= top <= bottom <= total,
        bottom - top <= client,
        position == spec_clamp_scroll(position, total, client),
    ensures
        ({
            let r = spec_reveal_scroll(position, top, bottom, total, client);
            r <= top && bottom <= r + client
        }),
{
}

// ---------------------------------------------------------------------------
// Settings panel controls
// ---------------------------------------------------------------------------

/// Which page of the settings panel is shown and which control has the
/// keyboard focus (-1: none).
#[derive(Clone, Copy, Debug, PartialEq, Eq)]
pub struct PanelState {
    pub page: usize,
    pub focus: isize,
}

impl PanelState {
    /// Shows a page (the last page at most) and clears the focus.
    pub fn select_page(&mut self, page: usize)
        ensures
            final(self).page == if page < 4 { page } else { 4 },
            final(self).focus == -1,
    {
        self.page = if page < 4 { page } else { 4 };
        self.focus = -1;
    }
}

/// Top of a row of controls; the calendar page has denser rows.
pub open spec fn spec_row_top(row: int, page: int) -> int {
    106 + row * (if page == 1 { 54int } else { 62int })
}

pub open spec fn row_top_ok(row: int, page: int) -> bool {
    let step = if page == 1 { 54int } else { 62int };
    fits_i32(row * step) && fits_i32(106 + row * step)
}

pub fn row_top(row: usize, page: usize) -> (r: i32)
    requires
        row_top_ok((row as i32) as int, page as int),
    ensures
        r == spec_row_top((row as i32) as int, page as int),
{
    let step: i32 = if page == 1 { 54 } else { 62 };
    106 + row as i32 * step
}

/// The `index`-th of `count` choice buttons of a row, laid out from the
/// right, or the switch of a toggle row.
pub open spec fn spec_control_rect(row: int, index: int, count: int, toggle: bool, page: int) -> Rect {
    let top = spec_row_top(row, page);
    if toggle {
        Rect { left: 38, top: (top + 15) as i32, right: 80, bottom: (top + 39) as i32 }
    } else {
        let width = tdiv(240, count);
        let right = 278 - index * width;
        Rect {
            left: (right - width + 2) as i32,
            top: (top + 12) as i32,
            right: (right - 2) as i32,
            bottom: (top + 44) as i32,
        }
    }
}

/// `control_rect` divides by a positive count and stays within `i32`.
pub open spec fn control_rect_ok(row: int, index: int, count: int, toggle: bool, page: int) -> bool {
    let top = spec_row_top(row, page);
    &&& row_top_ok(row, page)
    &&& if toggle {
        fits_i32(top + 39)
    } else {
        let width = tdiv(240, count);
        &&& count > 0
        &&& fits_i32(index * width)
        &&& fits_i32(278 - index * width)
        &&& fits_i32(278 - index * width - width)
        &&& fits_i32(278 - index * width - width + 2)
        &&& fits_i32(top + 44)
    }
}

pub fn control_rect(row: usize, index: usize, count: usize, toggle: bool, page: usize) -> (r: Rect)
    requires
        control_rect_ok(
            (row as i32) as int,
            (index as i32) as int,
            (count as i32) as int,
            toggle,
            page as int,
        ),
    ensures
        r == spec_control_rect(
            (row as i32) as int,
            (index as i32) as int,
            (count as i32) as int,
            toggle,
            page as int,
        ),
{
    let top = row_top(row, page);
    if toggle {
        return Rect { left: 38, top: top + 15, right: 80, bottom: top + 39 };
    }
    let width: i32 = 240 / count as i32;
    let right = 278 - index as i32 * width;
    Rect { left: right - width + 2, top: top + 12, right: right - 2, bottom: top + 44 }
}

pub open spec fn spec_contains(r: Rect, x: int, y: int) -> bool {
    r.left <= x < r.right && r.top <= y < r.bottom
}

pub fn contains(r: Rect, x: i32, y: i32) -> (b: bool)
    ensures
        b == spec_contains(r, x as int, y as int),
{
    x >= r.left && x < r.right && y >= r.top && y < r.bottom
}

// ---------------------------------------------------------------------------
// Colour controls
// ---------------------------------------------------------------------------

#[derive(Clone, Copy, Debug, PartialEq, Eq, Structural)]
pub enum Target {
    Accent,
    Primary,
}

/// The colour button under a point: primary at x 24..209, accent at
/// 221..406, both on y 122..162.
pub open spec fn spec_hit_test(x: int, y: int) -> Option<Target> {
    if !(122 <= y < 162) {
        None
    } else if 24 <= x < 209 {
        Some(Target::Primary)
    } else if 221 <= x < 406 {
        Some(Target::Accent)
    } else {
        None
    }
}

pub fn hit_test(x: i32, y: i32) -> (r: Option<Target>)
    ensures
        r == spec_hit_test(x as int, y as int),
{
    if !(122 <= y && y < 162) {
        return None;
    }
    if 24 <= x && x < 209 {
        Some(Target::Primary)
    } else if 221 <= x && x < 406 {
        Some(Target::Accent)
    } else {
        None
    }
}

/// Makes `color` the custom primary or accent colour, keeping the other
/// colour in effect.
pub fn set_target_color(settings: &mut Settings, target: Target, color: [u8; 3])
    ensures
        *final(settings) == with_target(*old(settings), target, color),
{
    let mut colors = crate::theme::ThemeColors::from_settings(settings);
    match target {
        Target::Primary => colors.primary = color,
        Target::Accent => colors.accent = color,
    }
    colors.apply(settings);
}

/// The settings with `color` as the target's colour, the other colour kept
/// as it is in effect.
pub open spec fn with_target(s: Settings, target: Target, color: [u8; 3]) -> Settings {
    let before = colors_of(s);
    Settings {
        primary: Some(if target == Target::Primary { color } else { before.primary }),
        accent: Some(if target == Target::Accent { color } else { before.accent }),
        ..s
    }
}

/// The colour the picker opens with: the target's colour in effect.
pub open spec fn spec_target_color(s: Settings, target: Target) -> [u8; 3] {
    if target == Target::Primary { colors_of(s).primary } else { colors_of(s).accent }
}

pub fn target_color(settings: &Settings, target: Target) -> (r: [u8; 3])
    ensures
        r == spec_target_color(*settings, target),
{
    let colors = crate::theme::ThemeColors::from_settings(settings);
    match target {
        Target::Primary => colors.primary,
        Target::Accent => colors.accent,
    }
}

/// Closes the colour picker. An accepted colour (`picked`) becomes the
/// target's colour, and the settings with the colour from before the picker
/// (`initial`) are returned to fall back on if saving fails; a cancelled or
/// failed picker puts `initial` back and leaves nothing to save.
pub fn picker_closed(settings: &mut Settings, target: Target, initial: [u8; 3], picked: Option<[u8; 3]>) -> (fallback: Option<Settings>)
    ensures
        match picked {
            Some(c) => *final(settings) == with_target(*old(settings), target, c) && fallback == Some(
                with_target(*old(settings), target, initial),
            ),
            None => *final(settings) == with_target(*old(settings), target, initial) && fallback is None,
        },
{
    match picked {
        Some(selected) => {
            let mut colors = crate::theme::ThemeColors::from_settings(settings);
            match target {
                Target::Primary => colors.primary = selected,
                Target::Accent => colors.accent = selected,
            }
            set_target_color(settings, target, initial);
            let previous = *settings;
            colors.apply(settings);
            Some(previous)
        },
        None => {
            set_target_color(settings, target, initial);
            None
        },
    }
}

/// A colour previewed in the picker and then cancelled leaves the colours in
/// effect as they were when the picker opened; an accepted one becomes the
/// target's colour and leaves the theme and the other colour as they were.
pub proof fn lemma_picker_round_trip(s: Settings, target: Target, previewed: [u8; 3], picked: [u8; 3])
    ensures
        colors_of(with_target(with_target(s, target, previewed), target, spec_target_color(s, target)))
            == colors_of(s),
        spec_target_color(with_target(s, target, picked), target) == picked,
        colors_of(with_target(s, target, picked)).theme == colors_of(s).theme,
        spec_target_color(with_target(s, target, picked), other_target(target))
            == spec_target_color(s, other_target(target)),
{
    let before = colors_of(s);
    let s1 = with_target(s, target, previewed);
    let s2 = with_target(s1, target, spec_target_color(s, target));
    assert(s1.theme == s.theme && s2.theme == s.theme);
    assert(s2.primary == Some(before.primary));
    assert(s2.accent == Some(before.accent));
    assert(colors_of(s2) == before);
}

/// The colour button beside the target.
pub open spec fn other_target(target: Target) -> Target {
    if target == Target::Primary { Target::Accent } else { Target::Primary }
}

/// A Windows COLORREF (0x00BBGGRR).
pub open spec fn spec_rgb(red: u8, green: u8, blue: u8) -> u32 {
    (red as int + green as int * 256 + blue as int * 65536) as u32
}

pub fn rgb(red: u8, green: u8, blue: u8) -> (r: u32)
    ensures
        r == spec_rgb(red, green, blue),
{
    red as u32 + green as u32 * 256 + blue as u32 * 65536
}

/// The red, green and blue bytes of a Windows colour value (its low,
/// second and third bytes).
pub fn channels(color: u32) -> (r: [u8; 3])
    ensures
        r[0] == color % 256,
        r[1] == color / 256 % 256,
        r[2] == color / 65536 % 256,
{
    [(color % 256) as u8, (color / 256 % 256) as u8, (color / 65536 % 256) as u8]
}

/// Packing three bytes into a colour value and reading them back gives the
/// same bytes, in the same order.
pub proof fn lemma_channels_of_rgb(red: u8, green: u8, blue: u8)
    ensures
        spec_rgb(red, green, blue) % 256 == red,
        spec_rgb(red, green, blue) / 256 % 256 == green,
        spec_rgb(red, green, blue) / 65536 % 256 == blue,
{
    let c = red as int + green as int * 256 + blue as int * 65536;
    assert(c < 0x1000000);
    assert(spec_rgb(red, green, blue) == c);
    assert(c % 256 == red) by (nonlinear_arith)
        requires
            c == red as int + green as int * 256 + blue as int * 65536,
            0 <= red < 256,
            0 <= green < 256,
            0 <= blue < 256,
    ;
    assert(c / 256 == green as int + blue as int * 256) by (nonlinear_arith)
        requires
            c == red as int + green as int * 256 + blue as int * 65536,
            0 <= red < 256,
            0 <= green < 256,
            0 <= blue < 256,
    ;
    assert(c / 65536 == blue as int) by (nonlinear_arith)
        requires
            c == red as int + green as int * 256 + blue as int * 65536,
            0 <= red < 256,
            0 <= green < 256,
            0 <= blue < 256,
    ;
}

/// The colours the window draws with, as Windows colour values.
#[derive(Clone, Copy, Debug, PartialEq, Eq, Structural)]
pub struct Palette {
    pub background: u32,
    pub surface: u32,
    pub surface_alt: u32,
    pub calendar_panel: u32,
    pub text: u32,
    pub muted: u32,
    pub faint: u32,
    pub accent: u32,
    pub accent_text: u32,
    pub holiday: u32,
    pub border: u32,
    pub event: u32,
    pub selected: u32,
}

/// The palette of a theme.
pub open spec fn spec_palette(theme: Theme) -> Palette {
    match theme {
        Theme::Dark => Palette {
            background: spec_rgb(30, 31, 33),
            surface: spec_rgb(43, 45, 48),
            surface_alt: spec_rgb(53, 56, 60),
            calendar_panel: spec_rgb(32, 35, 39),
            text: spec_rgb(240, 241, 243),
            muted: spec_rgb(176, 183, 192),
            faint: spec_rgb(91, 97, 104),
            accent: spec_rgb(248, 211, 88),
            accent_text: spec_rgb(24, 24, 24),
            holiday: spec_rgb(255, 104, 104),
            border: spec_rgb(70, 70, 70),
            event: spec_rgb(126, 180, 255),
            selected: spec_rgb(64, 58, 38),
        },
        Theme::Light => Palette {
            background: spec_rgb(231, 233, 236),
            surface: spec_rgb(250, 250, 250),
            surface_alt: spec_rgb(241, 243, 246),
            calendar_panel: spec_rgb(245, 246, 248),
            text: spec_rgb(27, 31, 36),
            muted: spec_rgb(91, 98, 107),
            faint: spec_rgb(176, 181, 188),
            accent: spec_rgb(230, 181, 43),
            accent_text: spec_rgb(29, 25, 12),
            holiday: spec_rgb(206, 49, 49),
            border: spec_rgb(211, 214, 219),
            event: spec_rgb(32, 100, 191),
            selected: spec_rgb(255, 246, 205),
        },
    }
}

impl Palette {
    pub fn from_theme(theme: Theme) -> (r: Self)
        ensures
            r == spec_palette(theme),
    {
        match theme {
            Theme::Dark => Palette {
                background: rgb(30, 31, 33),
                surface: rgb(43, 45, 48),
                surface_alt: rgb(53, 56, 60),
                calendar_panel: rgb(32, 35, 39),
                text: rgb(240, 241, 243),
                muted: rgb(176, 183, 192),
                faint: rgb(91, 97, 104),
                accent: rgb(248, 211, 88),
                accent_text: rgb(24, 24, 24),
                holiday: rgb(255, 104, 104),
                border: rgb(70, 70, 70),
                event: rgb(126, 180, 255),
                selected: rgb(64, 58, 38),
            },
            Theme::Light => Palette {
                background: rgb(231, 233, 236),
                surface: rgb(250, 250, 250),
                surface_alt: rgb(241, 243, 246),
                calendar_panel: rgb(245, 246, 248),
                text: rgb(27, 31, 36),
                muted: rgb(91, 98, 107),
                faint: rgb(176, 181, 188),
                accent: rgb(230, 181, 43),
                accent_text: rgb(29, 25, 12),
                holiday: rgb(206, 49, 49),
                border: rgb(211, 214, 219),
                event: rgb(32, 100, 191),
                selected: rgb(255, 246, 205),
            },
        }
    }
}

} // verus!
