//! User settings, their keys and their plain-text `key=value` file format.
use vstd::prelude::*;
use crate::calendar::{CalendarKind, kind_from_key, kind_key};
use crate::text::{str_eq, trim, find_char, chars_of, trim_bounds, find_in, range_is, nat_decimal, push_decimal};
use crate::theme::{spec_parse_hex, parse_hex_range, spec_hex, hex};

verus! {

#[derive(Clone, Copy, Debug, PartialEq, Eq, Structural)]
pub enum Theme {
    Dark,
    Light,
}

pub open spec fn theme_key(t: Theme) -> Seq<char> {
    match t {
        Theme::Dark => "dark"@,
        Theme::Light => "light"@,
    }
}

/// "light" selects the light theme; anything else the dark one.
pub open spec fn theme_from_key(value: Seq<char>) -> Theme {
    if value == "light"@ {
        Theme::Light
    } else {
        Theme::Dark
    }
}

pub open spec fn theme_title(t: Theme) -> Seq<char> {
    match t {
        Theme::Dark => "تیره"@,
        Theme::Light => "روشن"@,
    }
}

impl Theme {
    pub fn key(self) -> (r: &'static str)
        ensures
            r@ == theme_key(self),
    {
        match self {
            Theme::Dark => "dark",
            Theme::Light => "light",
        }
    }

    pub fn from_key(value: &str) -> (r: Self)
        ensures
            r == theme_from_key(value@),
    {
        if str_eq(value, "light") {
            Theme::Light
        } else {
            Theme::Dark
        }
    }

    pub fn title(self) -> (r: &'static str)
        ensures
            r@ == theme_title(self),
    {
        match self {
            Theme::Dark => "تیره",
            Theme::Light => "روشن",
        }
    }
}

/// Reading a theme's key gives the theme back.
pub proof fn lemma_theme_key_round_trip(t: Theme)
    ensures
        theme_from_key(theme_key(t)) == t,
{
    reveal_strlit("dark");
    reveal_strlit("light");
    assert("dark"@.len() == 4);
    assert("light"@.len() == 5);
}

#[derive(Clone, Copy, Debug, PartialEq, Eq, Structural)]
pub enum TrayIconStyle {
    TransparentWhite,
    TransparentBlack,
    YellowBlack,
}

pub open spec fn style_key(s: TrayIconStyle) -> Seq<char> {
    match s {
        TrayIconStyle::TransparentWhite => "transparent_white"@,
        TrayIconStyle::TransparentBlack => "transparent_black"@,
        TrayIconStyle::YellowBlack => "yellow_black"@,
    }
}

/// Unknown keys select the yellow-and-black style.
pub open spec fn style_from_key(value: Seq<char>) -> TrayIconStyle {
    if value == "transparent_white"@ {
        TrayIconStyle::TransparentWhite
    } else if value == "transparent_black"@ {
        TrayIconStyle::TransparentBlack
    } else {
        TrayIconStyle::YellowBlack
    }
}

pub open spec fn style_title(s: TrayIconStyle) -> Seq<char> {
    match s {
        TrayIconStyle::TransparentWhite => "متن سفید"@,
        TrayIconStyle::TransparentBlack => "متن مشکی"@,
        TrayIconStyle::YellowBlack => "زرد + مشکی"@,
    }
}

pub open spec fn style_next(s: TrayIconStyle) -> TrayIconStyle {
    match s {
        TrayIconStyle::TransparentWhite => TrayIconStyle::TransparentBlack,
        TrayIconStyle::TransparentBlack => TrayIconStyle::YellowBlack,
        TrayIconStyle::YellowBlack => TrayIconStyle::TransparentWhite,
    }
}

impl TrayIconStyle {
    pub fn key(self) -> (r: &'static str)
        ensures
            r@ == style_key(self),
    {
        match self {
            TrayIconStyle::TransparentWhite => "transparent_white",
            TrayIconStyle::TransparentBlack => "transparent_black",
            TrayIconStyle::YellowBlack => "yellow_black",
        }
    }

    pub fn from_key(value: &str) -> (r: Self)
        ensures
            r == style_from_key(value@),
    {
        if str_eq(value, "transparent_white") {
            TrayIconStyle::TransparentWhite
        } else if str_eq(value, "transparent_black") {
            TrayIconStyle::TransparentBlack
        } else {
            TrayIconStyle::YellowBlack
        }
    }

    pub fn title(self) -> (r: &'static str)
        ensures
            r@ == style_title(self),
    {
        match self {
            TrayIconStyle::TransparentWhite => "متن سفید",
            TrayIconStyle::TransparentBlack => "متن مشکی",
            TrayIconStyle::YellowBlack => "زرد + مشکی",
        }
    }

    pub fn next(self) -> (r: Self)
        ensures
            r == style_next(self),
    {
        match self {
            TrayIconStyle::TransparentWhite => TrayIconStyle::TransparentBlack,
            TrayIconStyle::TransparentBlack => TrayIconStyle::YellowBlack,
            TrayIconStyle::YellowBlack => TrayIconStyle::TransparentWhite,
        }
    }
}

/// Reading a tray style's key gives the style back, and three steps of
/// `next` return to the start.
pub proof fn lemma_style_key_round_trip(s: TrayIconStyle)
    ensures
        style_from_key(style_key(s)) == s,
        style_next(style_next(style_next(s))) == s,
        style_next(s) != s,
{
    reveal_strlit("transparent_white");
    reveal_strlit("transparent_black");
    reveal_strlit("yellow_black");
    assert("transparent_white"@[12] == 'w');
    assert("transparent_black"@[12] == 'b');
    assert("yellow_black"@.len() == 12);
    assert("transparent_white"@.len() == 17);
}

#[derive(Clone, Copy, Debug)]
pub struct Settings {
    pub theme: Theme,
    pub primary: Option<[u8; 3]>,
    pub accent: Option<[u8; 3]>,
    pub ui_scale: u32,
    pub main_calendar: CalendarKind,
    pub calendar_rtl: bool,
    pub show_jalali: bool,
    pub show_gregorian: bool,
    pub show_hijri: bool,
    pub show_subtitles: bool,
    pub show_events: bool,
    pub show_tray_date: bool,
    pub auto_update: bool,
    pub tray_day_icon: bool,
    pub tray_english_digits: bool,
    pub tray_text_white: bool,
    pub tray_accent_background: bool,
    pub compact_day: bool,
    pub autostart: bool,
}

/// The settings of a fresh installation.
pub open spec fn default_settings() -> Settings {
    Settings {
        theme: Theme::Dark,
        primary: None,
        accent: None,
        ui_scale: 100,
        main_calendar: CalendarKind::Jalali,
        calendar_rtl: true,
        show_jalali: true,
        show_gregorian: true,
        show_hijri: true,
        show_subtitles: true,
        show_events: true,
        show_tray_date: true,
        auto_update: true,
        tray_day_icon: false,
        tray_english_digits: false,
        tray_text_white: false,
        tray_accent_background: true,
        compact_day: false,
        autostart: false,
    }
}

impl Default for Settings {
    fn default() -> (r: Self)
        ensures
            r == default_settings(),
    {
        Settings {
            theme: Theme::Dark,
            primary: None,
            accent: None,
            ui_scale: 100,
            main_calendar: CalendarKind::Jalali,
            calendar_rtl: true,
            show_jalali: true,
            show_gregorian: true,
            show_hijri: true,
            show_subtitles: true,
            show_events: true,
            show_tray_date: true,
            auto_update: true,
            tray_day_icon: false,
            tray_english_digits: false,
            tray_text_white: false,
            tray_accent_background: true,
            compact_day: false,
            autostart: false,
        }
    }
}

/// One step down the interface scales 80, 90, 100, 110, 125.
pub open spec fn smaller_scale(s: int) -> int {
    if s <= 90 {
        80
    } else if s <= 100 {
        90
    } else if s <= 110 {
        100
    } else {
        110
    }
}

/// One step up the interface scales 80, 90, 100, 110, 125.
pub open spec fn larger_scale(s: int) -> int {
    if s <= 80 {
        90
    } else if s <= 90 {
        100
    } else if s <= 100 {
        110
    } else {
        125
    }
}

/// The interface scales the buttons step through.
pub open spec fn listed_scale(s: int) -> bool {
    s == 80 || s == 90 || s == 100 || s == 110 || s == 125
}

/// Either button lands on a listed scale, and one step up undoes one step
/// down (and back) wherever the step was not already at the end.
pub proof fn lemma_scale_steps(s: int)
    ensures
        listed_scale(larger_scale(s)),
        listed_scale(smaller_scale(s)),
        listed_scale(s) && s != 125 ==> smaller_scale(larger_scale(s)) == s,
        listed_scale(s) && s != 80 ==> larger_scale(smaller_scale(s)) == s,
{
}

impl Settings {
    pub fn smaller(&mut self)
        ensures
            *final(self) == (Settings { ui_scale: smaller_scale(old(self).ui_scale as int) as u32, ..*old(self) }),
    {
        self.ui_scale = if self.ui_scale <= 80 {
            80
        } else if self.ui_scale <= 90 {
            80
        } else if self.ui_scale <= 100 {
            90
        } else if self.ui_scale <= 110 {
            100
        } else {
            110
        };
    }

    pub fn larger(&mut self)
        ensures
            *final(self) == (Settings { ui_scale: larger_scale(old(self).ui_scale as int) as u32, ..*old(self) }),
    {
        self.ui_scale = if self.ui_scale <= 80 {
            90
        } else if self.ui_scale <= 90 {
            100
        } else if self.ui_scale <= 100 {
            110
        } else if self.ui_scale <= 110 {
            125
        } else {
            125
        };
    }
}


// ---------------------------------------------------------------------------
// Reading the settings file
// ---------------------------------------------------------------------------

/// A line without its carriage return, as `str::lines` yields it.
pub open spec fn strip_cr(t: Seq<char>) -> Seq<char> {
    if t.len() > 0 && t.last() == '\r' {
        t.drop_last()
    } else {
        t
    }
}

/// The line of `s` that starts at `p` (`str::lines` semantics: a final
/// line without '\n' keeps everything).
pub open spec fn line_at(s: Seq<char>, p: int) -> Seq<char> {
    let e = find_char(s, p, '\n');
    if e < s.len() {
        strip_cr(s.subrange(p, e))
    } else {
        s.subrange(p, s.len() as int)
    }
}

/// Start of the line after the one at `p`.
pub open spec fn next_line(s: Seq<char>, p: int) -> int {
    let e = find_char(s, p, '\n');
    if e < s.len() {
        e + 1
    } else {
        s.len() as int
    }
}

pub proof fn lemma_find_char_bounds(s: Seq<char>, p: int, c: char)
    requires
        0 <= p <= s.len(),
    ensures
        p <= find_char(s, p, c) <= s.len(),
        find_char(s, p, c) < s.len() ==> s[find_char(s, p, c)] == c,
        forall|k: int| p <= k < find_char(s, p, c) ==> s[k] != c,
    decreases s.len() - p,
{
    if p < s.len() && s[p] != c {
        lemma_find_char_bounds(s, p + 1, c);
    }
}

pub open spec fn is_dec_digit(c: char) -> bool {
    48 <= c as u32 <= 57
}

/// Value of a string of decimal digits.
pub open spec fn dec_value(s: Seq<char>) -> nat
    decreases s.len(),
{
    if s.len() == 0 {
        0
    } else {
        dec_value(s.drop_last()) * 10 + ((s.last() as u32) - 48) as nat
    }
}

pub open spec fn all_digits(d: Seq<char>) -> bool {
    forall|i: int| 0 <= i < d.len() ==> #[trigger] is_dec_digit(d[i])
}

/// The text after one optional leading '+'.
pub open spec fn unsigned_body(s: Seq<char>) -> Seq<char> {
    if s.len() > 0 && s[0] == '+' {
        s.drop_first()
    } else {
        s
    }
}

/// `u32::from_str`: an optional '+', then one or more decimal digits whose
/// value fits.
pub open spec fn spec_parse_u32(s: Seq<char>) -> Option<u32> {
    let d = unsigned_body(s);
    if d.len() > 0 && all_digits(d) && dec_value(d) <= u32::MAX {
        Some(dec_value(d) as u32)
    } else {
        None
    }
}

/// A setting value means "on" when its trimmed text is one of these words.
pub open spec fn spec_parse_bool(value: Seq<char>) -> bool {
    let t = trim(value);
    t == "true"@ || t == "1"@ || t == "yes"@ || t == "on"@
}

/// `ui_scale` text to a scale: unreadable values mean 100, then 80..=125.
pub open spec fn scale_from_text(value: Seq<char>) -> u32 {
    let v = match spec_parse_u32(trim(value)) {
        Some(x) => x,
        None => 100,
    };
    if v < 80 {
        80
    } else if v > 125 {
        125
    } else {
        v
    }
}

/// Position of a known key in the settings file's key list (19 if unknown).
pub open spec fn key_code(key: Seq<char>) -> int {
    if key == "theme"@ {
        0
    } else if key == "primary"@ {
        1
    } else if key == "accent"@ {
        2
    } else if key == "ui_scale"@ {
        3
    } else if key == "main_calendar"@ {
        4
    } else if key == "calendar_rtl"@ {
        5
    } else if key == "show_jalali"@ {
        6
    } else if key == "show_gregorian"@ {
        7
    } else if key == "show_hijri"@ {
        8
    } else if key == "show_subtitles"@ {
        9
    } else if key == "show_events"@ {
        10
    } else if key == "show_tray_date"@ {
        11
    } else if key == "auto_update"@ {
        12
    } else if key == "tray_day_icon"@ {
        13
    } else if key == "tray_english_digits"@ {
        14
    } else if key == "tray_text_white"@ {
        15
    } else if key == "tray_accent_background"@ {
        16
    } else if key == "compact_day"@ {
        17
    } else if key == "autostart"@ {
        18
    } else {
        19
    }
}

/// The effect of an entry whose key number is below 5.
pub open spec fn set_main(s: Settings, code: int, value: Seq<char>) -> Settings {
    Settings {
        theme: if code == 0 { theme_from_key(trim(value)) } else { s.theme },
        primary: if code == 1 { spec_parse_hex(value) } else { s.primary },
        accent: if code == 2 { spec_parse_hex(value) } else { s.accent },
        ui_scale: if code == 3 { scale_from_text(value) } else { s.ui_scale },
        main_calendar: if code == 4 { kind_from_key(trim(value)) } else { s.main_calendar },
        ..s
    }
}

/// The effect of a switch entry (key numbers 5 to 18).
pub open spec fn set_flag(s: Settings, code: int, b: bool) -> Settings {
    Settings {
        calendar_rtl: if code == 5 { b } else { s.calendar_rtl },
        show_jalali: if code == 6 { b } else { s.show_jalali },
        show_gregorian: if code == 7 { b } else { s.show_gregorian },
        show_hijri: if code == 8 { b } else { s.show_hijri },
        show_subtitles: if code == 9 { b } else { s.show_subtitles },
        show_events: if code == 10 { b } else { s.show_events },
        show_tray_date: if code == 11 { b } else { s.show_tray_date },
        auto_update: if code == 12 { b } else { s.auto_update },
        tray_day_icon: if code == 13 { b } else { s.tray_day_icon },
        tray_english_digits: if code == 14 { b } else { s.tray_english_digits },
        tray_text_white: if code == 15 { b } else { s.tray_text_white },
        tray_accent_background: if code == 16 { b } else { s.tray_accent_background },
        compact_day: if code == 17 { b } else { s.compact_day },
        autostart: if code == 18 { b } else { s.autostart },
        ..s
    }
}

/// The effect of the entry with key number `code`.
pub open spec fn set_code(s: Settings, code: int, value: Seq<char>) -> Settings {
    if code < 5 {
        set_main(s, code, value)
    } else if code < 19 {
        set_flag(s, code, spec_parse_bool(value))
    } else {
        s
    }
}

/// The effect of one `key=value` entry (`key` already trimmed).
#[verifier::opaque]
pub open spec fn set_field(s: Settings, key: Seq<char>, value: Seq<char>) -> Settings {
    set_code(s, key_code(key), value)
}

/// A line without '=' changes nothing; otherwise its key and value apply.
pub open spec fn apply_line(s: Settings, line: Seq<char>) -> Settings {
    let e = find_char(line, 0, '=');
    if e >= line.len() {
        s
    } else {
        set_field(s, trim(line.subrange(0, e)), line.subrange(e + 1, line.len() as int))
    }
}

/// Every line from position `p` on, in order.
#[verifier::opaque]
pub open spec fn apply_from(st: Settings, s: Seq<char>, p: int) -> Settings
    decreases s.len() - p,
    via apply_from_decreases
{
    if p < 0 || p >= s.len() {
        st
    } else {
        apply_from(apply_line(st, line_at(s, p)), s, next_line(s, p))
    }
}

#[via_fn]
proof fn apply_from_decreases(st: Settings, s: Seq<char>, p: int) {
    if 0 <= p < s.len() {
        lemma_find_char_bounds(s, p, '\n');
    }
}

/// The tray style a legacy `tray_icon_style` line names.
pub open spec fn line_style(line: Seq<char>) -> Option<TrayIconStyle> {
    let e = find_char(line, 0, '=');
    if e < line.len() && trim(line.subrange(0, e)) == "tray_icon_style"@ {
        Some(style_from_key(trim(line.subrange(e + 1, line.len() as int))))
    } else {
        None
    }
}

/// The last legacy tray style from position `p` on (or `acc`).
#[verifier::opaque]
pub open spec fn legacy_from(s: Seq<char>, p: int, acc: Option<TrayIconStyle>) -> Option<
    TrayIconStyle,
>
    decreases s.len() - p,
    via legacy_from_decreases
{
    if p < 0 || p >= s.len() {
        acc
    } else {
        legacy_from(
            s,
            next_line(s, p),
            match line_style(line_at(s, p)) {
                Some(x) => Some(x),
                None => acc,
            },
        )
    }
}

#[via_fn]
proof fn legacy_from_decreases(s: Seq<char>, p: int, acc: Option<TrayIconStyle>) {
    if 0 <= p < s.len() {
        lemma_find_char_bounds(s, p, '\n');
    }
}

/// The legacy style only provides the starting tray colours.
pub open spec fn with_legacy(s: Settings, style: Option<TrayIconStyle>) -> Settings {
    match style {
        Some(x) => Settings {
            tray_text_white: x == TrayIconStyle::TransparentWhite,
            tray_accent_background: x == TrayIconStyle::YellowBlack,
            ..s
        },
        None => s,
    }
}

pub open spec fn spec_from_text(text: Seq<char>) -> Settings {
    apply_from(with_legacy(default_settings(), legacy_from(text, 0, None)), text, 0)
}

fn find_from(chars: &Vec<char>, p: usize, c: char) -> (r: usize)
    requires
        p <= chars@.len(),
    ensures
        r == find_char(chars@, p as int, c),
        p <= r <= chars@.len(),
{
    proof {
        lemma_find_char_bounds(chars@, p as int, c);
    }
    let mut i = p;
    while i < chars.len() && chars[i] != c
        invariant
            p <= i <= chars@.len(),
            find_char(chars@, p as int, c) == find_char(chars@, i as int, c),
        decreases chars@.len() - i,
    {
        i += 1;
    }
    i
}

/// Bounds of the line at `p` and the start of the next one.
fn line_bounds(chars: &Vec<char>, p: usize) -> (r: (usize, usize))
    requires
        p < chars@.len(),
    ensures
        p <= r.0 <= chars@.len(),
        chars@.subrange(p as int, r.0 as int) == line_at(chars@, p as int),
        r.1 == next_line(chars@, p as int),
{
    let e = find_from(chars, p, '\n');
    if e < chars.len() {
        if e > p && chars[e - 1] == '\r' {
            assert(chars@.subrange(p as int, e as int).drop_last() =~= chars@.subrange(
                p as int,
                e - 1,
            ));
            (e - 1, e + 1)
        } else {
            (e, e + 1)
        }
    } else {
        (e, e)
    }
}

fn parse_u32_range(chars: &Vec<char>, lo: usize, hi: usize) -> (r: Option<u32>)
    requires
        lo <= hi <= chars@.len(),
    ensures
        r == spec_parse_u32(chars@.subrange(lo as int, hi as int)),
{
    let ghost s = chars@.subrange(lo as int, hi as int);
    let mut a = lo;
    if a < hi && chars[a] == '+' {
        assert(s.drop_first() =~= chars@.subrange(lo + 1, hi as int));
        a += 1;
    }
    let ghost d = chars@.subrange(a as int, hi as int);
    assert(d == unsigned_body(s));
    if a == hi {
        return None;
    }
    let mut value: u64 = 0;
    let mut overflow = false;
    let mut i = a;
    while i < hi
        invariant
            lo <= a <= i <= hi <= chars@.len(),
            d == chars@.subrange(a as int, hi as int),
            s == chars@.subrange(lo as int, hi as int),
            d == unsigned_body(s),
            forall|k: int| a <= k < i ==> #[trigger] is_dec_digit(chars@[k]),
            !overflow ==> value == dec_value(chars@.subrange(a as int, i as int)),
            overflow ==> dec_value(chars@.subrange(a as int, i as int)) > u32::MAX,
            value <= u32::MAX,
        decreases hi - i,
    {
        let c = chars[i];
        let u = c as u32;
        if !(48 <= u && u <= 57) {
            assert(!is_dec_digit(d[i - a]));
            assert(!all_digits(d));
            return None;
        }
        let ghost prefix = chars@.subrange(a as int, i as int);
        assert(chars@.subrange(a as int, i + 1).drop_last() =~= prefix);
        if !overflow {
            let next: u64 = value * 10 + (u - 48) as u64;
            if next > 0xffff_ffff {
                overflow = true;
            } else {
                value = next;
            }
        }
        i += 1;
    }
    assert(chars@.subrange(a as int, hi as int) =~= d);
    assert(all_digits(d)) by {
        assert forall|k: int| 0 <= k < d.len() implies #[trigger] is_dec_digit(d[k]) by {
            assert(d[k] == chars@[a + k]);
        }
    }
    if overflow {
        None
    } else {
        Some(value as u32)
    }
}

fn parse_bool_range(chars: &Vec<char>, lo: usize, hi: usize) -> (r: bool)
    requires
        lo <= hi <= chars@.len(),
    ensures
        r == spec_parse_bool(chars@.subrange(lo as int, hi as int)),
{
    let (a, b) = trim_bounds(chars, lo, hi);
    range_is(chars, a, b, "true") || range_is(chars, a, b, "1") || range_is(chars, a, b, "yes")
        || range_is(chars, a, b, "on")
}

fn scale_from_range(chars: &Vec<char>, lo: usize, hi: usize) -> (r: u32)
    requires
        lo <= hi <= chars@.len(),
    ensures
        r == scale_from_text(chars@.subrange(lo as int, hi as int)),
{
    let (a, b) = trim_bounds(chars, lo, hi);
    let v = match parse_u32_range(chars, a, b) {
        Some(x) => x,
        None => 100,
    };
    if v < 80 {
        80
    } else if v > 125 {
        125
    } else {
        v
    }
}

fn style_from_range(chars: &Vec<char>, lo: usize, hi: usize) -> (r: TrayIconStyle)
    requires
        lo <= hi <= chars@.len(),
    ensures
        r == style_from_key(chars@.subrange(lo as int, hi as int)),
{
    if range_is(chars, lo, hi, "transparent_white") {
        TrayIconStyle::TransparentWhite
    } else if range_is(chars, lo, hi, "transparent_black") {
        TrayIconStyle::TransparentBlack
    } else {
        TrayIconStyle::YellowBlack
    }
}

#[verifier::rlimit(60)]
fn key_code_range(chars: &Vec<char>, lo: usize, hi: usize) -> (r: u32)
    requires
        lo <= hi <= chars@.len(),
    ensures
        r == key_code(chars@.subrange(lo as int, hi as int)),
{
    if range_is(chars, lo, hi, "theme") {
        0
    } else if range_is(chars, lo, hi, "primary") {
        1
    } else if range_is(chars, lo, hi, "accent") {
        2
    } else if range_is(chars, lo, hi, "ui_scale") {
        3
    } else if range_is(chars, lo, hi, "main_calendar") {
        4
    } else if range_is(chars, lo, hi, "calendar_rtl") {
        5
    } else if range_is(chars, lo, hi, "show_jalali") {
        6
    } else if range_is(chars, lo, hi, "show_gregorian") {
        7
    } else if range_is(chars, lo, hi, "show_hijri") {
        8
    } else if range_is(chars, lo, hi, "show_subtitles") {
        9
    } else if range_is(chars, lo, hi, "show_events") {
        10
    } else if range_is(chars, lo, hi, "show_tray_date") {
        11
    } else if range_is(chars, lo, hi, "auto_update") {
        12
    } else if range_is(chars, lo, hi, "tray_day_icon") {
        13
    } else if range_is(chars, lo, hi, "tray_english_digits") {
        14
    } else if range_is(chars, lo, hi, "tray_text_white") {
        15
    } else if range_is(chars, lo, hi, "tray_accent_background") {
        16
    } else if range_is(chars, lo, hi, "compact_day") {
        17
    } else if range_is(chars, lo, hi, "autostart") {
        18
    } else {
        19
    }
}

fn theme_from_range(chars: &Vec<char>, lo: usize, hi: usize) -> (r: Theme)
    requires
        lo <= hi <= chars@.len(),
    ensures
        r == theme_from_key(trim(chars@.subrange(lo as int, hi as int))),
{
    let (a, b) = trim_bounds(chars, lo, hi);
    if range_is(chars, a, b, "light") {
        Theme::Light
    } else {
        Theme::Dark
    }
}

fn calendar_from_range(chars: &Vec<char>, lo: usize, hi: usize) -> (r: CalendarKind)
    requires
        lo <= hi <= chars@.len(),
    ensures
        r == kind_from_key(trim(chars@.subrange(lo as int, hi as int))),
{
    let (a, b) = trim_bounds(chars, lo, hi);
    if range_is(chars, a, b, "gregorian") {
        CalendarKind::Gregorian
    } else if range_is(chars, a, b, "hijri") {
        CalendarKind::Hijri
    } else {
        CalendarKind::Jalali
    }
}

fn with_theme(st: Settings, chars: &Vec<char>, vlo: usize, vhi: usize) -> (r: Settings)
    requires
        vlo <= vhi <= chars@.len(),
    ensures
        r == set_main(st, 0, chars@.subrange(vlo as int, vhi as int)),
{
    Settings { theme: theme_from_range(chars, vlo, vhi), ..st }
}

fn with_colour(st: Settings, code: u32, chars: &Vec<char>, vlo: usize, vhi: usize) -> (r: Settings)
    requires
        vlo <= vhi <= chars@.len(),
        code == 1 || code == 2,
    ensures
        r == set_main(st, code as int, chars@.subrange(vlo as int, vhi as int)),
{
    let color = parse_hex_range(chars, vlo, vhi);
    if code == 1 {
        Settings { primary: color, ..st }
    } else {
        Settings { accent: color, ..st }
    }
}

fn with_scale_or_calendar(st: Settings, code: u32, chars: &Vec<char>, vlo: usize, vhi: usize) -> (r: Settings)
    requires
        vlo <= vhi <= chars@.len(),
        code == 3 || code == 4,
    ensures
        r == set_main(st, code as int, chars@.subrange(vlo as int, vhi as int)),
{
    if code == 3 {
        Settings { ui_scale: scale_from_range(chars, vlo, vhi), ..st }
    } else {
        Settings { main_calendar: calendar_from_range(chars, vlo, vhi), ..st }
    }
}

fn with_main(st: Settings, code: u32, chars: &Vec<char>, vlo: usize, vhi: usize) -> (r: Settings)
    requires
        vlo <= vhi <= chars@.len(),
    ensures
        r == set_main(st, code as int, chars@.subrange(vlo as int, vhi as int)),
{
    if code == 0 {
        with_theme(st, chars, vlo, vhi)
    } else if code == 1 || code == 2 {
        with_colour(st, code, chars, vlo, vhi)
    } else if code == 3 || code == 4 {
        with_scale_or_calendar(st, code, chars, vlo, vhi)
    } else {
        st
    }
}

fn with_flag(st: Settings, code: u32, value: bool) -> (r: Settings)
    ensures
        r == set_flag(st, code as int, value),
{
    Settings {
        theme: st.theme,
        primary: st.primary,
        accent: st.accent,
        ui_scale: st.ui_scale,
        main_calendar: st.main_calendar,
        calendar_rtl: if code == 5 { value } else { st.calendar_rtl },
        show_jalali: if code == 6 { value } else { st.show_jalali },
        show_gregorian: if code == 7 { value } else { st.show_gregorian },
        show_hijri: if code == 8 { value } else { st.show_hijri },
        show_subtitles: if code == 9 { value } else { st.show_subtitles },
        show_events: if code == 10 { value } else { st.show_events },
        show_tray_date: if code == 11 { value } else { st.show_tray_date },
        auto_update: if code == 12 { value } else { st.auto_update },
        tray_day_icon: if code == 13 { value } else { st.tray_day_icon },
        tray_english_digits: if code == 14 { value } else { st.tray_english_digits },
        tray_text_white: if code == 15 { value } else { st.tray_text_white },
        tray_accent_background: if code == 16 { value } else { st.tray_accent_background },
        compact_day: if code == 17 { value } else { st.compact_day },
        autostart: if code == 18 { value } else { st.autostart },
    }
}

fn set_field_range(st: &mut Settings, chars: &Vec<char>, klo: usize, khi: usize, vlo: usize, vhi: usize)
    requires
        klo <= khi <= chars@.len(),
        vlo <= vhi <= chars@.len(),
    ensures
        *final(st) == set_field(
            *old(st),
            chars@.subrange(klo as int, khi as int),
            chars@.subrange(vlo as int, vhi as int),
        ),
{
    reveal(set_field);
    let code = key_code_range(chars, klo, khi);
    if code < 5 {
        *st = with_main(*st, code, chars, vlo, vhi);
    } else if code < 19 {
        let value = parse_bool_range(chars, vlo, vhi);
        *st = with_flag(*st, code, value);
    }
}

/// Splits `chars[lo..hi]` at its first '=': trimmed key bounds and value bounds.
fn split_entry(chars: &Vec<char>, lo: usize, hi: usize) -> (r: Option<(usize, usize, usize, usize)>)
    requires
        lo <= hi <= chars@.len(),
    ensures
        ({
            let line = chars@.subrange(lo as int, hi as int);
            let e = find_char(line, 0, '=');
            match r {
                None => e >= line.len(),
                Some((ka, kb, va, vb)) => {
                    &&& e < line.len()
                    &&& ka <= kb <= chars@.len()
                    &&& va <= vb <= chars@.len()
                    &&& chars@.subrange(ka as int, kb as int) == trim(line.subrange(0, e))
                    &&& chars@.subrange(va as int, vb as int) == line.subrange(
                        e + 1,
                        line.len() as int,
                    )
                },
            }
        }),
{
    let ghost line = chars@.subrange(lo as int, hi as int);
    let e = find_in(chars, lo, hi, '=');
    if e >= hi {
        return None;
    }
    proof {
        lemma_find_char_bounds(line, 0, '=');
        assert(chars@.subrange(lo as int, e as int) =~= line.subrange(0, e - lo));
        assert(chars@.subrange(e + 1, hi as int) =~= line.subrange(e - lo + 1, line.len() as int));
    }
    let (ka, kb) = trim_bounds(chars, lo, e);
    Some((ka, kb, e + 1, hi))
}

impl Settings {
    /// Reads settings from the text of a settings file; unknown keys and
    /// malformed lines are ignored, and a legacy `tray_icon_style` entry only
    /// provides defaults for the newer tray keys.
    pub fn from_text(text: &str) -> (r: Self)
        ensures
            r == spec_from_text(text@),
    {
        let chars = chars_of(text);
        let n = chars.len();
        // Legacy appearance is a fallback; explicit new keys always take precedence.
        let mut legacy: Option<TrayIconStyle> = None;
        let mut p: usize = 0;
        while p < n
            invariant
                n == chars@.len(),
                chars@ == text@,
                p <= n,
                legacy_from(chars@, 0, None) == legacy_from(chars@, p as int, legacy),
            decreases n - p,
        {
            proof {
                lemma_find_char_bounds(chars@, p as int, '\n');
                reveal(apply_from);
                reveal(legacy_from);
            }
            let (hi, next) = line_bounds(&chars, p);
            match split_entry(&chars, p, hi) {
                Some((ka, kb, va, vb)) => {
                    if range_is(&chars, ka, kb, "tray_icon_style") {
                        let (a, b) = trim_bounds(&chars, va, vb);
                        legacy = Some(style_from_range(&chars, a, b));
                    }
                },
                None => {},
            }
            p = next;
        }
        let mut settings = Settings::default();
        match legacy {
            Some(style) => {
                settings.tray_text_white = style == TrayIconStyle::TransparentWhite;
                settings.tray_accent_background = style == TrayIconStyle::YellowBlack;
            },
            None => {},
        }
        let ghost start = settings;
        p = 0;
        while p < n
            invariant
                n == chars@.len(),
                chars@ == text@,
                p <= n,
                apply_from(start, chars@, 0) == apply_from(settings, chars@, p as int),
            decreases n - p,
        {
            proof {
                lemma_find_char_bounds(chars@, p as int, '\n');
                reveal(apply_from);
                reveal(legacy_from);
            }
            let (hi, next) = line_bounds(&chars, p);
            match split_entry(&chars, p, hi) {
                Some((ka, kb, va, vb)) => {
                    set_field_range(&mut settings, &chars, ka, kb, va, vb);
                },
                None => {},
            }
            p = next;
        }
        proof {
            reveal(apply_from);
            reveal(legacy_from);
        }
        settings
    }
}


// ---------------------------------------------------------------------------
// Writing the settings file
// ---------------------------------------------------------------------------

/// One line of the settings file.
pub open spec fn entry(key: Seq<char>, value: Seq<char>) -> Seq<char> {
    key + "="@ + value + "\n"@
}

pub open spec fn bool_text(b: bool) -> Seq<char> {
    if b {
        "true"@
    } else {
        "false"@
    }
}

/// A custom colour as `#RRGGBB`, or nothing.
pub open spec fn color_text(c: Option<[u8; 3]>) -> Seq<char> {
    match c {
        Some(x) => spec_hex(x),
        None => Seq::<char>::empty(),
    }
}

/// The first lines of the settings file: theme, colours, scale, calendar.
pub open spec fn text_head(s: Settings) -> Seq<char> {
    Seq::<char>::empty()
        + entry("theme"@, theme_key(s.theme))
        + entry("primary"@, color_text(s.primary))
        + entry("accent"@, color_text(s.accent))
        + entry("ui_scale"@, nat_decimal(s.ui_scale as nat))
        + entry("main_calendar"@, kind_key(s.main_calendar))
}

/// Switch lines of the settings file after `pre`.
pub open spec fn text_flags_a(pre: Seq<char>, s: Settings) -> Seq<char> {
    pre
        + entry("calendar_rtl"@, bool_text(s.calendar_rtl))
        + entry("show_jalali"@, bool_text(s.show_jalali))
        + entry("show_gregorian"@, bool_text(s.show_gregorian))
        + entry("show_hijri"@, bool_text(s.show_hijri))
        + entry("show_subtitles"@, bool_text(s.show_subtitles))
        + entry("show_events"@, bool_text(s.show_events))
        + entry("show_tray_date"@, bool_text(s.show_tray_date))
}

/// Switch lines of the settings file after `pre`.
pub open spec fn text_flags_b(pre: Seq<char>, s: Settings) -> Seq<char> {
    pre
        + entry("auto_update"@, bool_text(s.auto_update))
        + entry("tray_day_icon"@, bool_text(s.tray_day_icon))
        + entry("tray_english_digits"@, bool_text(s.tray_english_digits))
        + entry("tray_text_white"@, bool_text(s.tray_text_white))
        + entry("tray_accent_background"@, bool_text(s.tray_accent_background))
        + entry("compact_day"@, bool_text(s.compact_day))
        + entry("autostart"@, bool_text(s.autostart))
}

/// The settings file: every setting on a line of its own, in a fixed order.
pub open spec fn spec_to_text(s: Settings) -> Seq<char> {
    text_flags_b(text_flags_a(text_head(s), s), s)
}

fn push_entry(text: &mut String, key: &str, value: &str)
    ensures
        final(text)@ == old(text)@ + entry(key@, value@),
{
    text.append(key);
    text.append("=");
    text.append(value);
    text.append("\n");
    assert(final(text)@ =~= old(text)@ + entry(key@, value@));
}

fn bool_str(b: bool) -> (r: &'static str)
    ensures
        r@ == bool_text(b),
{
    if b {
        "true"
    } else {
        "false"
    }
}

fn push_head(text: &mut String, s: &Settings)
    ensures
        final(text)@ == old(text)@ + entry("theme"@, theme_key(s.theme)) + entry(
            "primary"@,
            color_text(s.primary),
        ) + entry("accent"@, color_text(s.accent)) + entry(
            "ui_scale"@,
            nat_decimal(s.ui_scale as nat),
        ) + entry("main_calendar"@, kind_key(s.main_calendar)),
{
    push_entry(text, "theme", s.theme.key());
    let primary = match s.primary {
        Some(c) => hex(c),
        None => String::new(),
    };
    push_entry(text, "primary", primary.as_str());
    let accent = match s.accent {
        Some(c) => hex(c),
        None => String::new(),
    };
    push_entry(text, "accent", accent.as_str());
    let mut scale = String::new();
    push_decimal(&mut scale, s.ui_scale as u64);
    assert(scale@ =~= nat_decimal(s.ui_scale as nat));
    push_entry(text, "ui_scale", scale.as_str());
    push_entry(text, "main_calendar", s.main_calendar.key());
}

fn push_flags(text: &mut String, s: &Settings)
    ensures
        final(text)@ == old(text)@
            + entry("calendar_rtl"@, bool_text(s.calendar_rtl))
            + entry("show_jalali"@, bool_text(s.show_jalali))
            + entry("show_gregorian"@, bool_text(s.show_gregorian))
            + entry("show_hijri"@, bool_text(s.show_hijri))
            + entry("show_subtitles"@, bool_text(s.show_subtitles))
            + entry("show_events"@, bool_text(s.show_events))
            + entry("show_tray_date"@, bool_text(s.show_tray_date))
            + entry("auto_update"@, bool_text(s.auto_update))
            + entry("tray_day_icon"@, bool_text(s.tray_day_icon))
            + entry("tray_english_digits"@, bool_text(s.tray_english_digits))
            + entry("tray_text_white"@, bool_text(s.tray_text_white))
            + entry("tray_accent_background"@, bool_text(s.tray_accent_background))
            + entry("compact_day"@, bool_text(s.compact_day))
            + entry("autostart"@, bool_text(s.autostart)),
{
    push_entry(text, "calendar_rtl", bool_str(s.calendar_rtl));
    push_entry(text, "show_jalali", bool_str(s.show_jalali));
    push_entry(text, "show_gregorian", bool_str(s.show_gregorian));
    push_entry(text, "show_hijri", bool_str(s.show_hijri));
    push_entry(text, "show_subtitles", bool_str(s.show_subtitles));
    push_entry(text, "show_events", bool_str(s.show_events));
    push_entry(text, "show_tray_date", bool_str(s.show_tray_date));
    push_entry(text, "auto_update", bool_str(s.auto_update));
    push_entry(text, "tray_day_icon", bool_str(s.tray_day_icon));
    push_entry(text, "tray_english_digits", bool_str(s.tray_english_digits));
    push_entry(text, "tray_text_white", bool_str(s.tray_text_white));
    push_entry(text, "tray_accent_background", bool_str(s.tray_accent_background));
    push_entry(text, "compact_day", bool_str(s.compact_day));
    push_entry(text, "autostart", bool_str(s.autostart));
}

impl Settings {
    /// The text of the settings file for these settings.
    pub fn to_text(&self) -> (r: String)
        ensures
            r@ == spec_to_text(*self),
    {
        let mut text = String::new();
        push_head(&mut text, self);
        push_flags(&mut text, self);
        text
    }
}

} // verus!
