//! GahYar, a tray calendar showing the Jalali, Gregorian and lunar Hijri
//! calendars side by side: the calendar arithmetic, the settings and their
//! file, the themes, the occasions list, and the decisions of the calendar
//! and settings windows, from what a click or a key does to what each control
//! shows. Drawing, files, the registry and the tray stay with the program that
//! uses this library.
pub mod arith;
pub mod calendar;
pub mod calendar_laws;
pub mod text;
pub mod settings;
pub mod settings_laws;
pub mod theme;
pub mod events;
pub mod layout;
pub mod view;
pub mod clicks;
pub mod panel;
pub mod choices;
pub mod view_laws;
pub mod grid;
pub mod jdn_laws;
pub mod day_laws;
pub mod input;
pub mod updates;
pub mod paint;
pub mod install;

use vstd::prelude::*;

verus! {

} // verus!
