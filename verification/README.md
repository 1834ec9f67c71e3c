# GahYar

GahYar is a Windows tray calendar that shows the Jalali (Persian), Gregorian
and lunar Hijri calendars side by side, with Iran's official holidays and
occasions.

This crate is written in Verus: every function in `src/` carries a contract
that Verus proves, and the properties that span several functions (converting
a date to another calendar and back, writing the settings file and reading
it, stepping a day and stepping back, switching the main calendar and
switching back) are stated and proved as proof functions.

## Layout

- `src/` — the verified library
  - `calendar.rs`, `calendar_laws.rs`, `jdn_laws.rs` — the three calendars,
    conversions and navigation, and the proofs that conversions are inverse
  - `day_laws.rs` — day numbers: day steps add up and undo each other,
    dates stay real, month ends lead to the next month, weekdays follow on
  - `settings.rs`, `settings_laws.rs` — the settings and their `key=value`
    file, and the proof that the file reads back what was written
  - `theme.rs` — preset and custom colours, `#RRGGBB`
  - `events.rs` — occasions and official holidays
  - `view.rs`, `view_laws.rs` — the calendar window's state, texts and
    navigation, and what navigation keeps
  - `grid.rs`, `paint.rs` — what the month grid, the list and the controls
    show, and with which colours
  - `clicks.rs`, `input.rs`, `choices.rs`, `panel.rs` — what clicks, keys and
    the settings panel's controls do to the state
  - `layout.rs` — scaling, window placement, scrolling, hit-testing
  - `updates.rs`, `install.rs` — the update check's and the installer's
    decisions
  - `text.rs`, `arith.rs` — string and integer helpers
- `tests/` — tests on concrete values
- `app/` — the Windows program around the library: windows, painting, files,
  the registry, and the floating-point colour contrast rules
