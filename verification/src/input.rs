//! Keys, the mouse wheel and the pointer leaving the window: how each one
//! changes the state, and what the window does next.
use vstd::prelude::*;
use crate::clicks::{CalendarHit, arrow, calendar_click};
use crate::view::{AppState, ViewMode, event_items_for_view, items_ok, move_ok, spec_event_items};
use crate::view_laws::lemma_neighbour_months;

verus! {

/// The Escape key.
pub const KEY_ESCAPE: u32 = 0x1B;

/// The F5 key.
pub const KEY_RELOAD: u32 = 0x74;

/// The left arrow key.
pub const KEY_LEFT: u32 = 0x25;

/// The right arrow key.
pub const KEY_RIGHT: u32 = 0x27;

/// What the window does after a key.
#[derive(Clone, Copy, Debug, PartialEq, Eq, Structural)]
pub enum KeyOutcome {
    /// The key means nothing here.
    Nothing,
    /// The window hides.
    Hide,
    /// The window takes the height of the new view and repaints.
    Resize,
    /// The occasions file is read again and the window repaints.
    Reload,
    /// The window repaints.
    Repaint,
}

/// The state after a key, and what the window does next.
pub open spec fn spec_key_down(s: AppState, key: u32) -> (AppState, KeyOutcome) {
    if key == KEY_ESCAPE {
        if s.view == ViewMode::Settings {
            (AppState { view: ViewMode::Calendar, ..s }, KeyOutcome::Resize)
        } else {
            (s, KeyOutcome::Hide)
        }
    } else if key == KEY_RELOAD {
        (s, KeyOutcome::Reload)
    } else if key == KEY_LEFT || key == KEY_RIGHT {
        (if s.view == ViewMode::Calendar { arrow(s, key == KEY_RIGHT) } else { s }, KeyOutcome::Repaint)
    } else {
        (s, KeyOutcome::Nothing)
    }
}

/// A key stays within machine integers: an arrow in the one-day view moves
/// the day by one.
pub open spec fn key_ok(s: AppState, key: u32) -> bool {
    (key == KEY_LEFT || key == KEY_RIGHT) && s.view == ViewMode::Calendar && s.settings.compact_day
        ==> move_ok(s, if key == KEY_RIGHT { 1 } else { -1 })
}

/// Handles a key: Escape leaves the settings view or hides the window, F5
/// reloads the occasions, and the arrows move like the header's arrows.
pub fn key_down(app: &mut AppState, key: u32) -> (r: KeyOutcome)
    requires
        key_ok(*old(app), key),
    ensures
        *final(app) == spec_key_down(*old(app), key).0,
        r == spec_key_down(*old(app), key).1,
{
    if key == KEY_ESCAPE {
        if app.view == ViewMode::Settings {
            app.view = ViewMode::Calendar;
            KeyOutcome::Resize
        } else {
            KeyOutcome::Hide
        }
    } else if key == KEY_RELOAD {
        KeyOutcome::Reload
    } else if key == KEY_LEFT || key == KEY_RIGHT {
        if app.view == ViewMode::Calendar {
            let hit = if key == KEY_RIGHT { CalendarHit::Next } else { CalendarHit::Previous };
            calendar_click(app, hit);
        }
        KeyOutcome::Repaint
    } else {
        KeyOutcome::Nothing
    }
}

/// In the month view, one arrow key and then the other come back to the
/// month shown, with no day selected and the list at its top.
pub proof fn lemma_arrows_undo(s: AppState, first: u32)
    requires
        s.view == ViewMode::Calendar,
        !s.settings.compact_day,
        1 <= s.month <= 12,
        i32::MIN < s.year < i32::MAX,
        first == KEY_LEFT || first == KEY_RIGHT,
    ensures
        ({
            let second = if first == KEY_LEFT { KEY_RIGHT } else { KEY_LEFT };
            spec_key_down(spec_key_down(s, first).0, second).0 == (AppState {
                selected_day: None,
                event_scroll: 0,
                ..s
            })
        }),
{
    lemma_neighbour_months(s.year as int, s.month as int);
    let t = spec_key_down(s, first).0;
    lemma_neighbour_months(t.year as int, t.month as int);
}

/// The state after one notch of the wheel: down (`delta < 0`) scrolls the
/// occasions list one item further, up one item back, within the list.
pub open spec fn spec_wheel(s: AppState, delta: int) -> AppState {
    if s.view == ViewMode::Calendar && s.settings.show_events {
        let count = spec_event_items(s).len() as int;
        let max_scroll = if count > 3 { count - 3 } else { 0 };
        let scroll = s.event_scroll as int;
        let next = if delta < 0 {
            if scroll + 1 < max_scroll { scroll + 1 } else { max_scroll }
        } else if scroll > 0 {
            scroll - 1
        } else {
            0
        };
        AppState { event_scroll: next as usize, ..s }
    } else {
        s
    }
}

/// Scrolls the occasions list with the mouse wheel.
pub fn wheel(app: &mut AppState, delta: i32)
    requires
        old(app).view == ViewMode::Calendar && old(app).settings.show_events ==> items_ok(*old(app)),
    ensures
        *final(app) == spec_wheel(*old(app), delta as int),
{
    if app.view == ViewMode::Calendar && app.settings.show_events {
        let count = event_items_for_view(app).len();
        let max_scroll: usize = if count > 3 { count - 3 } else { 0 };
        if delta < 0 {
            app.event_scroll = if app.event_scroll < max_scroll { app.event_scroll + 1 } else { max_scroll };
        } else if app.event_scroll > 0 {
            app.event_scroll = app.event_scroll - 1;
        }
    }
}

/// The pointer left the window: no cell is hovered any more. Returns whether
/// one was, so that the window repaints only then.
pub fn pointer_left(app: &mut AppState) -> (changed: bool)
    ensures
        changed == old(app).hovered_cell is Some,
        *final(app) == (AppState { hovered_cell: None, ..*old(app) }),
{
    let changed = app.hovered_cell.is_some();
    app.hovered_cell = None;
    changed
}

} // verus!
