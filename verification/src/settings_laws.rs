//! The settings file reads back what it was written from.
use vstd::prelude::*;
use crate::calendar::{kind_key, lemma_kind_key_round_trip};
use crate::settings::{
    text_head, text_flags_a, text_flags_b, Settings, apply_from, apply_line, legacy_from,
    line_style, line_at, next_line, set_field, key_code, spec_from_text, spec_to_text, entry,
    bool_text, color_text, spec_parse_bool, scale_from_text, dec_value, is_dec_digit,
    unsigned_body, all_digits, theme_key, lemma_theme_key_round_trip, default_settings,
    lemma_find_char_bounds, strip_cr, TrayIconStyle, style_from_key,
};
use crate::text::{find_char, trim, is_ws, nat_decimal, digit_char};
use crate::theme::{spec_hex, spec_parse_hex, lemma_parse_hex_of_hex, hex_char, hex_body};

verus! {

/// A character that needs no quoting in the settings file.
pub open spec fn plain_char(c: char) -> bool {
    c != '=' && !is_ws(c)
}

/// Text with no '=', line break or other whitespace.
pub open spec fn clean(s: Seq<char>) -> bool {
    forall|i: int| 0 <= i < s.len() ==> #[trigger] plain_char(s[i])
}

proof fn lemma_trim_clean(s: Seq<char>)
    requires
        clean(s),
    ensures
        trim(s) == s,
{
    if s.len() > 0 {
        assert(plain_char(s[0]));
        assert(plain_char(s[s.len() - 1]));
    }
}

proof fn lemma_find_char_at(s: Seq<char>, p: int, j: int, c: char)
    requires
        0 <= p <= j < s.len(),
        s[j] == c,
        forall|i: int| p <= i < j ==> s[i] != c,
    ensures
        find_char(s, p, c) == j,
    decreases j - p,
{
    if p < j {
        lemma_find_char_at(s, p + 1, j, c);
    }
}

proof fn lemma_find_shift(a: Seq<char>, b: Seq<char>, q: int, c: char)
    requires
        0 <= q,
    ensures
        find_char(a + b, a.len() + q, c) == a.len() + find_char(b, q, c),
    decreases b.len() - q,
{
    if q < b.len() {
        assert((a + b)[a.len() + q] == b[q]);
        if b[q] != c {
            lemma_find_shift(a, b, q + 1, c);
        }
    }
}

proof fn lemma_find_prefix(a: Seq<char>, b: Seq<char>, p: int, c: char)
    requires
        0 <= p <= a.len(),
        find_char(a, p, c) < a.len(),
    ensures
        find_char(a + b, p, c) == find_char(a, p, c),
    decreases a.len() - p,
{
    assert((a + b)[p] == a[p]);
    if a[p] != c {
        lemma_find_prefix(a, b, p + 1, c);
    }
}

/// The line structure from a position inside `b` is unchanged by a prefix.
proof fn lemma_line_shift(a: Seq<char>, b: Seq<char>, q: int)
    requires
        0 <= q < b.len(),
    ensures
        line_at(a + b, a.len() + q) == line_at(b, q),
        next_line(a + b, a.len() + q) == a.len() + next_line(b, q),
{
    lemma_find_shift(a, b, q, '\n');
    lemma_find_char_bounds(b, q, '\n');
    let e = find_char(b, q, '\n');
    if e < b.len() {
        assert((a + b).subrange(a.len() + q, a.len() + e) =~= b.subrange(q, e));
    } else {
        assert((a + b).subrange(a.len() + q, (a + b).len() as int) =~= b.subrange(q, b.len() as int));
    }
}

/// Lines of `a` are not changed by what follows it, when `a` ends with a
/// line break.
proof fn lemma_line_prefix(a: Seq<char>, b: Seq<char>, p: int)
    requires
        0 <= p < a.len(),
        a.last() == '\n',
    ensures
        line_at(a + b, p) == line_at(a, p),
        next_line(a + b, p) == next_line(a, p),
        p < next_line(a, p) <= a.len(),
{
    lemma_find_char_bounds(a, p, '\n');
    let e = find_char(a, p, '\n');
    if e == a.len() {
        assert(a[a.len() - 1] != '\n');
    }
    lemma_find_prefix(a, b, p, '\n');
    assert((a + b).subrange(p, e) =~= a.subrange(p, e));
}

proof fn lemma_apply_shift(st: Settings, a: Seq<char>, b: Seq<char>, q: int)
    requires
        0 <= q,
    ensures
        apply_from(st, a + b, a.len() + q) == apply_from(st, b, q),
    decreases b.len() - q,
{
    reveal(apply_from);
    reveal(legacy_from);
    if q < b.len() {
        lemma_line_shift(a, b, q);
        lemma_find_char_bounds(b, q, '\n');
        lemma_apply_shift(apply_line(st, line_at(b, q)), a, b, next_line(b, q));
    }
}

proof fn lemma_legacy_shift(a: Seq<char>, b: Seq<char>, q: int, acc: Option<TrayIconStyle>)
    requires
        0 <= q,
    ensures
        legacy_from(a + b, a.len() + q, acc) == legacy_from(b, q, acc),
    decreases b.len() - q,
{
    reveal(apply_from);
    reveal(legacy_from);
    if q < b.len() {
        lemma_line_shift(a, b, q);
        lemma_find_char_bounds(b, q, '\n');
        let next_acc = match line_style(line_at(b, q)) {
            Some(x) => Some(x),
            None => acc,
        };
        lemma_legacy_shift(a, b, next_line(b, q), next_acc);
    }
}

/// Reading `a + b` is reading `a`, then `b`, when `a` is whole lines.
pub proof fn lemma_apply_concat(st: Settings, a: Seq<char>, b: Seq<char>, p: int)
    requires
        0 <= p <= a.len(),
        a.len() == 0 || a.last() == '\n',
    ensures
        apply_from(st, a + b, p) == apply_from(apply_from(st, a, p), b, 0),
    decreases a.len() - p,
{
    reveal(apply_from);
    reveal(legacy_from);
    if p == a.len() {
        lemma_apply_shift(st, a, b, 0);
    } else {
        lemma_line_prefix(a, b, p);
        lemma_apply_concat(apply_line(st, line_at(a, p)), a, b, next_line(a, p));
    }
}

pub proof fn lemma_legacy_concat(a: Seq<char>, b: Seq<char>, p: int, acc: Option<TrayIconStyle>)
    requires
        0 <= p <= a.len(),
        a.len() == 0 || a.last() == '\n',
    ensures
        legacy_from(a + b, p, acc) == legacy_from(b, 0, legacy_from(a, p, acc)),
    decreases a.len() - p,
{
    reveal(apply_from);
    reveal(legacy_from);
    if p == a.len() {
        lemma_legacy_shift(a, b, 0, acc);
    } else {
        lemma_line_prefix(a, b, p);
        let next_acc = match line_style(line_at(a, p)) {
            Some(x) => Some(x),
            None => acc,
        };
        lemma_legacy_concat(a, b, next_line(a, p), next_acc);
    }
}

/// One entry of the file sets one field (or names the legacy style).
proof fn lemma_entry(st: Settings, k: Seq<char>, v: Seq<char>, acc: Option<TrayIconStyle>)
    requires
        k.len() > 0,
        clean(k),
        clean(v),
    ensures
        apply_from(st, entry(k, v), 0) == set_field(st, k, v),
        legacy_from(entry(k, v), 0, acc) == if k == "tray_icon_style"@ {
            Some(style_from_key(v))
        } else {
            acc
        },
{
    reveal(apply_from);
    reveal(legacy_from);
    let line = k + "="@ + v;
    let e = entry(k, v);
    reveal_strlit("=");
    reveal_strlit("\n");
    assert(e =~= line.push('\n'));
    assert(line.len() == k.len() + 1 + v.len());
    assert forall|i: int| 0 <= i < line.len() implies #[trigger] line[i] != '\n' by {
        if i < k.len() {
            assert(line[i] == k[i]);
            assert(plain_char(k[i]));
        } else if i > k.len() {
            assert(line[i] == v[i - k.len() - 1]);
            assert(plain_char(v[i - k.len() - 1]));
        }
    }
    lemma_find_char_at(e, 0, line.len() as int, '\n');
    assert(e.subrange(0, line.len() as int) =~= line);
    if v.len() > 0 {
        assert(line.last() == v[v.len() - 1]);
        assert(plain_char(v[v.len() - 1]));
    }
    assert(strip_cr(line) == line);
    assert(line_at(e, 0) == line);
    assert(next_line(e, 0) == e.len());
    assert(apply_from(apply_line(st, line), e, e.len() as int) == apply_line(st, line));
    assert(apply_from(st, e, 0) == apply_line(st, line));
    assert forall|i: int| 0 <= i < k.len() implies #[trigger] line[i] != '=' by {
        assert(line[i] == k[i]);
        assert(plain_char(k[i]));
    }
    lemma_find_char_at(line, 0, k.len() as int, '=');
    assert(line.subrange(0, k.len() as int) =~= k);
    assert(line.subrange(k.len() + 1int, line.len() as int) =~= v);
    lemma_trim_clean(k);
    lemma_trim_clean(v);
    reveal(set_field);
    assert(apply_line(st, line) == set_field(st, k, v));
    let next_acc = match line_style(line) {
        Some(x) => Some(x),
        None => acc,
    };
    assert(legacy_from(e, e.len() as int, next_acc) == next_acc);
}

proof fn lemma_digit_char(d: int)
    requires
        0 <= d < 10,
    ensures
        digit_char(d) as u32 == 48 + d,
        plain_char(digit_char(d)),
        is_dec_digit(digit_char(d)),
        digit_char(d) != '+',
{
}

proof fn lemma_clean_decimal(n: nat)
    ensures
        clean(nat_decimal(n)),
        nat_decimal(n).len() > 0,
        all_digits(nat_decimal(n)),
        dec_value(nat_decimal(n)) == n,
        nat_decimal(n)[0] != '+',
    decreases n,
{
    let s = nat_decimal(n);
    lemma_digit_char((n % 10) as int);
    if n >= 10 {
        lemma_clean_decimal(n / 10);
        let t = nat_decimal(n / 10);
        assert(s == t.push(digit_char((n % 10) as int)));
        assert(s.drop_last() =~= t);
        assert(s.last() == digit_char((n % 10) as int));
        assert(dec_value(s) == dec_value(t) * 10 + ((s.last() as u32) - 48) as nat);
        assert(dec_value(s) == (n / 10) * 10 + n % 10);
        assert forall|i: int| 0 <= i < s.len() implies #[trigger] plain_char(s[i]) && is_dec_digit(s[i]) by {
            if i < t.len() {
                assert(s[i] == t[i]);
                assert(plain_char(t[i]));
                assert(is_dec_digit(t[i]));
            }
        }
    } else {
        assert(s.drop_last() =~= Seq::<char>::empty());
        assert(s.last() == digit_char(n as int));
        assert(dec_value(s) == dec_value(s.drop_last()) * 10 + ((s.last() as u32) - 48) as nat);
        assert(dec_value(Seq::<char>::empty()) == 0);
    }
}

proof fn lemma_scale_round_trip(u: u32)
    requires
        80 <= u <= 125,
    ensures
        scale_from_text(nat_decimal(u as nat)) == u,
{
    lemma_clean_decimal(u as nat);
    lemma_trim_clean(nat_decimal(u as nat));
    assert(unsigned_body(nat_decimal(u as nat)) == nat_decimal(u as nat));
}

proof fn lemma_clean_hex(c: [u8; 3])
    ensures
        clean(spec_hex(c)),
{
    let t = spec_hex(c);
    assert forall|i: int| 0 <= i < t.len() implies #[trigger] plain_char(t[i]) by {
        if i > 0 {
            let b = if i <= 2 { c[0] } else if i <= 4 { c[1] } else { c[2] };
            assert(t[i] == hex_char((b / 16) as int) || t[i] == hex_char((b % 16) as int));
        }
    }
}

proof fn lemma_color_round_trip(c: Option<[u8; 3]>)
    ensures
        clean(color_text(c)),
        spec_parse_hex(color_text(c)) == c,
{
    match c {
        Some(x) => {
            lemma_clean_hex(x);
            lemma_parse_hex_of_hex(x);
        },
        None => {
            assert(hex_body(Seq::<char>::empty()) =~= Seq::<char>::empty());
        },
    }
}

proof fn lemma_literals()
    ensures
        clean("theme"@),
        "theme"@.len() > 0,
        clean("primary"@),
        "primary"@.len() > 0,
        clean("accent"@),
        "accent"@.len() > 0,
        clean("ui_scale"@),
        "ui_scale"@.len() > 0,
        clean("main_calendar"@),
        "main_calendar"@.len() > 0,
        clean("calendar_rtl"@),
        "calendar_rtl"@.len() > 0,
        clean("show_jalali"@),
        "show_jalali"@.len() > 0,
        clean("show_gregorian"@),
        "show_gregorian"@.len() > 0,
        clean("show_hijri"@),
        "show_hijri"@.len() > 0,
        clean("show_subtitles"@),
        "show_subtitles"@.len() > 0,
        clean("show_events"@),
        "show_events"@.len() > 0,
        clean("show_tray_date"@),
        "show_tray_date"@.len() > 0,
        clean("auto_update"@),
        "auto_update"@.len() > 0,
        clean("tray_day_icon"@),
        "tray_day_icon"@.len() > 0,
        clean("tray_english_digits"@),
        "tray_english_digits"@.len() > 0,
        clean("tray_text_white"@),
        "tray_text_white"@.len() > 0,
        clean("tray_accent_background"@),
        "tray_accent_background"@.len() > 0,
        clean("compact_day"@),
        "compact_day"@.len() > 0,
        clean("autostart"@),
        "autostart"@.len() > 0,
        clean("dark"@),
        "dark"@.len() > 0,
        clean("light"@),
        "light"@.len() > 0,
        clean("jalali"@),
        "jalali"@.len() > 0,
        clean("gregorian"@),
        "gregorian"@.len() > 0,
        clean("hijri"@),
        "hijri"@.len() > 0,
        clean("true"@),
        "true"@.len() > 0,
        clean("false"@),
        "false"@.len() > 0,
        clean("tray_icon_style"@),
        "tray_icon_style"@.len() > 0,
{
    reveal_strlit("theme");
    reveal_strlit("primary");
    reveal_strlit("accent");
    reveal_strlit("ui_scale");
    reveal_strlit("main_calendar");
    reveal_strlit("calendar_rtl");
    reveal_strlit("show_jalali");
    reveal_strlit("show_gregorian");
    reveal_strlit("show_hijri");
    reveal_strlit("show_subtitles");
    reveal_strlit("show_events");
    reveal_strlit("show_tray_date");
    reveal_strlit("auto_update");
    reveal_strlit("tray_day_icon");
    reveal_strlit("tray_english_digits");
    reveal_strlit("tray_text_white");
    reveal_strlit("tray_accent_background");
    reveal_strlit("compact_day");
    reveal_strlit("autostart");
    reveal_strlit("dark");
    reveal_strlit("light");
    reveal_strlit("jalali");
    reveal_strlit("gregorian");
    reveal_strlit("hijri");
    reveal_strlit("true");
    reveal_strlit("false");
    reveal_strlit("tray_icon_style");
    assert forall|i: int| 0 <= i < "theme"@.len() implies #[trigger] plain_char("theme"@[i]) by {}
    assert forall|i: int| 0 <= i < "primary"@.len() implies #[trigger] plain_char("primary"@[i]) by {}
    assert forall|i: int| 0 <= i < "accent"@.len() implies #[trigger] plain_char("accent"@[i]) by {}
    assert forall|i: int| 0 <= i < "ui_scale"@.len() implies #[trigger] plain_char("ui_scale"@[i]) by {}
    assert forall|i: int| 0 <= i < "main_calendar"@.len() implies #[trigger] plain_char("main_calendar"@[i]) by {}
    assert forall|i: int| 0 <= i < "calendar_rtl"@.len() implies #[trigger] plain_char("calendar_rtl"@[i]) by {}
    assert forall|i: int| 0 <= i < "show_jalali"@.len() implies #[trigger] plain_char("show_jalali"@[i]) by {}
    assert forall|i: int| 0 <= i < "show_gregorian"@.len() implies #[trigger] plain_char("show_gregorian"@[i]) by {}
    assert forall|i: int| 0 <= i < "show_hijri"@.len() implies #[trigger] plain_char("show_hijri"@[i]) by {}
    assert forall|i: int| 0 <= i < "show_subtitles"@.len() implies #[trigger] plain_char("show_subtitles"@[i]) by {}
    assert forall|i: int| 0 <= i < "show_events"@.len() implies #[trigger] plain_char("show_events"@[i]) by {}
    assert forall|i: int| 0 <= i < "show_tray_date"@.len() implies #[trigger] plain_char("show_tray_date"@[i]) by {}
    assert forall|i: int| 0 <= i < "auto_update"@.len() implies #[trigger] plain_char("auto_update"@[i]) by {}
    assert forall|i: int| 0 <= i < "tray_day_icon"@.len() implies #[trigger] plain_char("tray_day_icon"@[i]) by {}
    assert forall|i: int| 0 <= i < "tray_english_digits"@.len() implies #[trigger] plain_char("tray_english_digits"@[i]) by {}
    assert forall|i: int| 0 <= i < "tray_text_white"@.len() implies #[trigger] plain_char("tray_text_white"@[i]) by {}
    assert forall|i: int| 0 <= i < "tray_accent_background"@.len() implies #[trigger] plain_char("tray_accent_background"@[i]) by {}
    assert forall|i: int| 0 <= i < "compact_day"@.len() implies #[trigger] plain_char("compact_day"@[i]) by {}
    assert forall|i: int| 0 <= i < "autostart"@.len() implies #[trigger] plain_char("autostart"@[i]) by {}
    assert forall|i: int| 0 <= i < "dark"@.len() implies #[trigger] plain_char("dark"@[i]) by {}
    assert forall|i: int| 0 <= i < "light"@.len() implies #[trigger] plain_char("light"@[i]) by {}
    assert forall|i: int| 0 <= i < "jalali"@.len() implies #[trigger] plain_char("jalali"@[i]) by {}
    assert forall|i: int| 0 <= i < "gregorian"@.len() implies #[trigger] plain_char("gregorian"@[i]) by {}
    assert forall|i: int| 0 <= i < "hijri"@.len() implies #[trigger] plain_char("hijri"@[i]) by {}
    assert forall|i: int| 0 <= i < "true"@.len() implies #[trigger] plain_char("true"@[i]) by {}
    assert forall|i: int| 0 <= i < "false"@.len() implies #[trigger] plain_char("false"@[i]) by {}
    assert forall|i: int| 0 <= i < "tray_icon_style"@.len() implies #[trigger] plain_char("tray_icon_style"@[i]) by {}
}

proof fn lemma_key_codes()
    ensures
        key_code("theme"@) == 0,
        "theme"@ != "tray_icon_style"@,
        key_code("primary"@) == 1,
        "primary"@ != "tray_icon_style"@,
        key_code("accent"@) == 2,
        "accent"@ != "tray_icon_style"@,
        key_code("ui_scale"@) == 3,
        "ui_scale"@ != "tray_icon_style"@,
        key_code("main_calendar"@) == 4,
        "main_calendar"@ != "tray_icon_style"@,
        key_code("calendar_rtl"@) == 5,
        "calendar_rtl"@ != "tray_icon_style"@,
        key_code("show_jalali"@) == 6,
        "show_jalali"@ != "tray_icon_style"@,
        key_code("show_gregorian"@) == 7,
        "show_gregorian"@ != "tray_icon_style"@,
        key_code("show_hijri"@) == 8,
        "show_hijri"@ != "tray_icon_style"@,
        key_code("show_subtitles"@) == 9,
        "show_subtitles"@ != "tray_icon_style"@,
        key_code("show_events"@) == 10,
        "show_events"@ != "tray_icon_style"@,
        key_code("show_tray_date"@) == 11,
        "show_tray_date"@ != "tray_icon_style"@,
        key_code("auto_update"@) == 12,
        "auto_update"@ != "tray_icon_style"@,
        key_code("tray_day_icon"@) == 13,
        "tray_day_icon"@ != "tray_icon_style"@,
        key_code("tray_english_digits"@) == 14,
        "tray_english_digits"@ != "tray_icon_style"@,
        key_code("tray_text_white"@) == 15,
        "tray_text_white"@ != "tray_icon_style"@,
        key_code("tray_accent_background"@) == 16,
        "tray_accent_background"@ != "tray_icon_style"@,
        key_code("compact_day"@) == 17,
        "compact_day"@ != "tray_icon_style"@,
        key_code("autostart"@) == 18,
        "autostart"@ != "tray_icon_style"@,
{
    reveal_strlit("theme");
    reveal_strlit("primary");
    reveal_strlit("accent");
    reveal_strlit("ui_scale");
    reveal_strlit("main_calendar");
    reveal_strlit("calendar_rtl");
    reveal_strlit("show_jalali");
    reveal_strlit("show_gregorian");
    reveal_strlit("show_hijri");
    reveal_strlit("show_subtitles");
    reveal_strlit("show_events");
    reveal_strlit("show_tray_date");
    reveal_strlit("auto_update");
    reveal_strlit("tray_day_icon");
    reveal_strlit("tray_english_digits");
    reveal_strlit("tray_text_white");
    reveal_strlit("tray_accent_background");
    reveal_strlit("compact_day");
    reveal_strlit("autostart");
    reveal_strlit("dark");
    reveal_strlit("light");
    reveal_strlit("jalali");
    reveal_strlit("gregorian");
    reveal_strlit("hijri");
    reveal_strlit("true");
    reveal_strlit("false");
    reveal_strlit("tray_icon_style");
    assert("theme"@.len() == 5);
    assert("primary"@.len() == 7);
    assert("accent"@.len() == 6);
    assert("ui_scale"@.len() == 8);
    assert("main_calendar"@.len() == 13);
    assert("calendar_rtl"@.len() == 12);
    assert("show_jalali"@.len() == 11);
    assert("show_gregorian"@.len() == 14);
    assert("show_hijri"@.len() == 10);
    assert("show_subtitles"@.len() == 14);
    assert("show_events"@.len() == 11);
    assert("show_tray_date"@.len() == 14);
    assert("auto_update"@.len() == 11);
    assert("tray_day_icon"@.len() == 13);
    assert("tray_english_digits"@.len() == 19);
    assert("tray_text_white"@.len() == 15);
    assert("tray_accent_background"@.len() == 22);
    assert("compact_day"@.len() == 11);
    assert("autostart"@.len() == 9);
    assert("dark"@.len() == 4);
    assert("light"@.len() == 5);
    assert("jalali"@.len() == 6);
    assert("gregorian"@.len() == 9);
    assert("hijri"@.len() == 5);
    assert("true"@.len() == 4);
    assert("false"@.len() == 5);
    assert("tray_icon_style"@.len() == 15);
    assert("show_subtitles"@[5] == 's' && "show_gregorian"@[5] == 'g');
    assert("show_events"@[5] == 'e' && "show_jalali"@[5] == 'j');
    assert("show_tray_date"@[5] == 't' && "show_gregorian"@[5] == 'g');
    assert("show_tray_date"@[5] == 't' && "show_subtitles"@[5] == 's');
    assert("auto_update"@[0] == 'a' && "show_jalali"@[0] == 's');
    assert("auto_update"@[0] == 'a' && "show_events"@[0] == 's');
    assert("tray_day_icon"@[0] == 't' && "main_calendar"@[0] == 'm');
    assert("compact_day"@[0] == 'c' && "show_jalali"@[0] == 's');
    assert("compact_day"@[0] == 'c' && "show_events"@[0] == 's');
    assert("compact_day"@[0] == 'c' && "auto_update"@[0] == 'a');
    assert("tray_icon_style"@[5] == 'i' && "tray_text_white"@[5] == 't');
}

proof fn lemma_keys_not_legacy()
    ensures
        "theme"@ != "tray_icon_style"@,
        "primary"@ != "tray_icon_style"@,
        "accent"@ != "tray_icon_style"@,
        "ui_scale"@ != "tray_icon_style"@,
        "main_calendar"@ != "tray_icon_style"@,
        "calendar_rtl"@ != "tray_icon_style"@,
        "show_jalali"@ != "tray_icon_style"@,
        "show_gregorian"@ != "tray_icon_style"@,
        "show_hijri"@ != "tray_icon_style"@,
        "show_subtitles"@ != "tray_icon_style"@,
        "show_events"@ != "tray_icon_style"@,
        "show_tray_date"@ != "tray_icon_style"@,
        "auto_update"@ != "tray_icon_style"@,
        "tray_day_icon"@ != "tray_icon_style"@,
        "tray_english_digits"@ != "tray_icon_style"@,
        "tray_text_white"@ != "tray_icon_style"@,
        "tray_accent_background"@ != "tray_icon_style"@,
        "compact_day"@ != "tray_icon_style"@,
        "autostart"@ != "tray_icon_style"@,
{
    reveal_strlit("theme");
    reveal_strlit("primary");
    reveal_strlit("accent");
    reveal_strlit("ui_scale");
    reveal_strlit("main_calendar");
    reveal_strlit("calendar_rtl");
    reveal_strlit("show_jalali");
    reveal_strlit("show_gregorian");
    reveal_strlit("show_hijri");
    reveal_strlit("show_subtitles");
    reveal_strlit("show_events");
    reveal_strlit("show_tray_date");
    reveal_strlit("auto_update");
    reveal_strlit("tray_day_icon");
    reveal_strlit("tray_english_digits");
    reveal_strlit("tray_text_white");
    reveal_strlit("tray_accent_background");
    reveal_strlit("compact_day");
    reveal_strlit("autostart");
    reveal_strlit("tray_icon_style");
    assert("theme"@.len() == 5);
    assert("primary"@.len() == 7);
    assert("accent"@.len() == 6);
    assert("ui_scale"@.len() == 8);
    assert("main_calendar"@.len() == 13);
    assert("calendar_rtl"@.len() == 12);
    assert("show_jalali"@.len() == 11);
    assert("show_gregorian"@.len() == 14);
    assert("show_hijri"@.len() == 10);
    assert("show_subtitles"@.len() == 14);
    assert("show_events"@.len() == 11);
    assert("show_tray_date"@.len() == 14);
    assert("auto_update"@.len() == 11);
    assert("tray_day_icon"@.len() == 13);
    assert("tray_english_digits"@.len() == 19);
    assert("tray_text_white"@.len() == 15);
    assert("tray_accent_background"@.len() == 22);
    assert("compact_day"@.len() == 11);
    assert("autostart"@.len() == 9);
    assert("tray_icon_style"@.len() == 15);
    assert("tray_text_white"@[5] == 't' && "tray_icon_style"@[5] == 'i');
}

proof fn lemma_bool_round_trip(b: bool)
    ensures
        clean(bool_text(b)),
        spec_parse_bool(bool_text(b)) == b,
{
    lemma_literals();
    lemma_trim_clean(bool_text(b));
    reveal_strlit("true");
    reveal_strlit("false");
    reveal_strlit("1");
    reveal_strlit("yes");
    reveal_strlit("on");
    assert("false"@.len() == 5);
}

proof fn lemma_ends_with_newline(a: Seq<char>, k: Seq<char>, v: Seq<char>)
    ensures
        (a + entry(k, v)).last() == '\n',
        (a + entry(k, v)).len() > 0,
{
    reveal_strlit("\n");
    assert(entry(k, v).last() == '\n');
}

/// Appending one entry to whole lines: the entry is read last.
proof fn lemma_step(st: Settings, prev: Seq<char>, k: Seq<char>, v: Seq<char>, acc: Option<TrayIconStyle>)
    requires
        prev.len() == 0 || prev.last() == '\n',
        k.len() > 0,
        clean(k),
        clean(v),
    ensures
        apply_from(st, prev + entry(k, v), 0) == set_field(apply_from(st, prev, 0), k, v),
        legacy_from(prev + entry(k, v), 0, acc) == if k == "tray_icon_style"@ {
            Some(style_from_key(v))
        } else {
            legacy_from(prev, 0, acc)
        },
        (prev + entry(k, v)).last() == '\n',
{
    lemma_entry(apply_from(st, prev, 0), k, v, legacy_from(prev, 0, acc));
    lemma_apply_concat(st, prev, entry(k, v), 0);
    lemma_legacy_concat(prev, entry(k, v), 0, acc);
    lemma_ends_with_newline(prev, k, v);
}

proof fn lemma_empty_text(st: Settings, acc: Option<TrayIconStyle>)
    ensures
        apply_from(st, Seq::<char>::empty(), 0) == st,
        legacy_from(Seq::<char>::empty(), 0, acc) == acc,
{
    reveal(apply_from);
    reveal(legacy_from);
}

/// Appending an entry that is not a legacy style keeps the legacy style.
proof fn lemma_step_legacy(prev: Seq<char>, k: Seq<char>, v: Seq<char>)
    requires
        prev.len() == 0 || prev.last() == '\n',
        k.len() > 0,
        clean(k),
        clean(v),
        k != "tray_icon_style"@,
    ensures
        legacy_from(prev + entry(k, v), 0, None) == legacy_from(prev, 0, None),
        (prev + entry(k, v)).last() == '\n',
{
    lemma_step(default_settings(), prev, k, v, None);
}

/// Every value written is plain text.
proof fn lemma_values_clean(s: Settings)
    requires
        80 <= s.ui_scale <= 125,
    ensures
        clean(theme_key(s.theme)),
        clean(color_text(s.primary)),
        clean(color_text(s.accent)),
        clean(nat_decimal(s.ui_scale as nat)),
        clean(kind_key(s.main_calendar)),
        clean(bool_text(s.calendar_rtl)),
        clean(bool_text(s.show_jalali)),
        clean(bool_text(s.show_gregorian)),
        clean(bool_text(s.show_hijri)),
        clean(bool_text(s.show_subtitles)),
        clean(bool_text(s.show_events)),
        clean(bool_text(s.show_tray_date)),
        clean(bool_text(s.auto_update)),
        clean(bool_text(s.tray_day_icon)),
        clean(bool_text(s.tray_english_digits)),
        clean(bool_text(s.tray_text_white)),
        clean(bool_text(s.tray_accent_background)),
        clean(bool_text(s.compact_day)),
        clean(bool_text(s.autostart)),
{
    lemma_literals();
    lemma_color_round_trip(s.primary);
    lemma_color_round_trip(s.accent);
    lemma_clean_decimal(s.ui_scale as nat);
    lemma_bool_round_trip(s.calendar_rtl);
    lemma_bool_round_trip(s.show_jalali);
    lemma_bool_round_trip(s.show_gregorian);
    lemma_bool_round_trip(s.show_hijri);
    lemma_bool_round_trip(s.show_subtitles);
    lemma_bool_round_trip(s.show_events);
    lemma_bool_round_trip(s.show_tray_date);
    lemma_bool_round_trip(s.auto_update);
    lemma_bool_round_trip(s.tray_day_icon);
    lemma_bool_round_trip(s.tray_english_digits);
    lemma_bool_round_trip(s.tray_text_white);
    lemma_bool_round_trip(s.tray_accent_background);
    lemma_bool_round_trip(s.compact_day);
    lemma_bool_round_trip(s.autostart);
    assert(clean(theme_key(s.theme)));
    assert(clean(kind_key(s.main_calendar)));
}

/// The lines of `text_head` name no legacy tray style.
#[verifier::rlimit(40)]
proof fn lemma_legacy_text_head(s: Settings)
    requires
        80 <= s.ui_scale <= 125,
    ensures
        legacy_from(text_head(s), 0, None) == legacy_from(Seq::<char>::empty(), 0, None),
        text_head(s).last() == '\n',
{
    lemma_literals();
    lemma_keys_not_legacy();
    lemma_values_clean(s);
    let t0 = Seq::<char>::empty();
    let t1 = t0 + entry("theme"@, theme_key(s.theme));
    lemma_step_legacy(t0, "theme"@, theme_key(s.theme));
    let t2 = t1 + entry("primary"@, color_text(s.primary));
    lemma_step_legacy(t1, "primary"@, color_text(s.primary));
    let t3 = t2 + entry("accent"@, color_text(s.accent));
    lemma_step_legacy(t2, "accent"@, color_text(s.accent));
    let t4 = t3 + entry("ui_scale"@, nat_decimal(s.ui_scale as nat));
    lemma_step_legacy(t3, "ui_scale"@, nat_decimal(s.ui_scale as nat));
    let t5 = t4 + entry("main_calendar"@, kind_key(s.main_calendar));
    lemma_step_legacy(t4, "main_calendar"@, kind_key(s.main_calendar));
}

/// Reading the lines of `text_head`.
#[verifier::rlimit(40)]
proof fn lemma_apply_text_head(st0: Settings, st: Settings, s: Settings)
    requires
        80 <= s.ui_scale <= 125,
        apply_from(st0, Seq::<char>::empty(), 0) == st,
    ensures
        apply_from(st0, text_head(s), 0) == set_field(set_field(set_field(set_field(set_field(st, "theme"@, theme_key(s.theme)), "primary"@, color_text(s.primary)), "accent"@, color_text(s.accent)), "ui_scale"@, nat_decimal(s.ui_scale as nat)), "main_calendar"@, kind_key(s.main_calendar)),
{
    lemma_literals();
    lemma_values_clean(s);
    let t0 = Seq::<char>::empty();
    let t1 = t0 + entry("theme"@, theme_key(s.theme));
    lemma_step(st0, t0, "theme"@, theme_key(s.theme), None);
    let t2 = t1 + entry("primary"@, color_text(s.primary));
    lemma_step(st0, t1, "primary"@, color_text(s.primary), None);
    let t3 = t2 + entry("accent"@, color_text(s.accent));
    lemma_step(st0, t2, "accent"@, color_text(s.accent), None);
    let t4 = t3 + entry("ui_scale"@, nat_decimal(s.ui_scale as nat));
    lemma_step(st0, t3, "ui_scale"@, nat_decimal(s.ui_scale as nat), None);
    let t5 = t4 + entry("main_calendar"@, kind_key(s.main_calendar));
    lemma_step(st0, t4, "main_calendar"@, kind_key(s.main_calendar), None);
}

/// The lines of `text_flags_a` name no legacy tray style.
#[verifier::rlimit(40)]
proof fn lemma_legacy_text_flags_a(pre: Seq<char>, s: Settings)
    requires
        80 <= s.ui_scale <= 125,
        pre.len() == 0 || pre.last() == '\n',
    ensures
        legacy_from(text_flags_a(pre, s), 0, None) == legacy_from(pre, 0, None),
        text_flags_a(pre, s).last() == '\n',
{
    lemma_literals();
    lemma_keys_not_legacy();
    lemma_values_clean(s);
    let t0 = pre;
    let t1 = t0 + entry("calendar_rtl"@, bool_text(s.calendar_rtl));
    lemma_step_legacy(t0, "calendar_rtl"@, bool_text(s.calendar_rtl));
    let t2 = t1 + entry("show_jalali"@, bool_text(s.show_jalali));
    lemma_step_legacy(t1, "show_jalali"@, bool_text(s.show_jalali));
    let t3 = t2 + entry("show_gregorian"@, bool_text(s.show_gregorian));
    lemma_step_legacy(t2, "show_gregorian"@, bool_text(s.show_gregorian));
    let t4 = t3 + entry("show_hijri"@, bool_text(s.show_hijri));
    lemma_step_legacy(t3, "show_hijri"@, bool_text(s.show_hijri));
    let t5 = t4 + entry("show_subtitles"@, bool_text(s.show_subtitles));
    lemma_step_legacy(t4, "show_subtitles"@, bool_text(s.show_subtitles));
    let t6 = t5 + entry("show_events"@, bool_text(s.show_events));
    lemma_step_legacy(t5, "show_events"@, bool_text(s.show_events));
    let t7 = t6 + entry("show_tray_date"@, bool_text(s.show_tray_date));
    lemma_step_legacy(t6, "show_tray_date"@, bool_text(s.show_tray_date));
}

/// Reading the lines of `text_flags_a`.
#[verifier::rlimit(40)]
proof fn lemma_apply_text_flags_a(st0: Settings, st: Settings, pre: Seq<char>, s: Settings)
    requires
        80 <= s.ui_scale <= 125,
        pre.len() == 0 || pre.last() == '\n',
        apply_from(st0, pre, 0) == st,
    ensures
        apply_from(st0, text_flags_a(pre, s), 0) == set_field(set_field(set_field(set_field(set_field(set_field(set_field(st, "calendar_rtl"@, bool_text(s.calendar_rtl)), "show_jalali"@, bool_text(s.show_jalali)), "show_gregorian"@, bool_text(s.show_gregorian)), "show_hijri"@, bool_text(s.show_hijri)), "show_subtitles"@, bool_text(s.show_subtitles)), "show_events"@, bool_text(s.show_events)), "show_tray_date"@, bool_text(s.show_tray_date)),
{
    lemma_literals();
    lemma_values_clean(s);
    let t0 = pre;
    let t1 = t0 + entry("calendar_rtl"@, bool_text(s.calendar_rtl));
    lemma_step(st0, t0, "calendar_rtl"@, bool_text(s.calendar_rtl), None);
    let t2 = t1 + entry("show_jalali"@, bool_text(s.show_jalali));
    lemma_step(st0, t1, "show_jalali"@, bool_text(s.show_jalali), None);
    let t3 = t2 + entry("show_gregorian"@, bool_text(s.show_gregorian));
    lemma_step(st0, t2, "show_gregorian"@, bool_text(s.show_gregorian), None);
    let t4 = t3 + entry("show_hijri"@, bool_text(s.show_hijri));
    lemma_step(st0, t3, "show_hijri"@, bool_text(s.show_hijri), None);
    let t5 = t4 + entry("show_subtitles"@, bool_text(s.show_subtitles));
    lemma_step(st0, t4, "show_subtitles"@, bool_text(s.show_subtitles), None);
    let t6 = t5 + entry("show_events"@, bool_text(s.show_events));
    lemma_step(st0, t5, "show_events"@, bool_text(s.show_events), None);
    let t7 = t6 + entry("show_tray_date"@, bool_text(s.show_tray_date));
    lemma_step(st0, t6, "show_tray_date"@, bool_text(s.show_tray_date), None);
}

/// The lines of `text_flags_b` name no legacy tray style.
#[verifier::rlimit(40)]
proof fn lemma_legacy_text_flags_b(pre: Seq<char>, s: Settings)
    requires
        80 <= s.ui_scale <= 125,
        pre.len() == 0 || pre.last() == '\n',
    ensures
        legacy_from(text_flags_b(pre, s), 0, None) == legacy_from(pre, 0, None),
        text_flags_b(pre, s).last() == '\n',
{
    lemma_literals();
    lemma_keys_not_legacy();
    lemma_values_clean(s);
    let t0 = pre;
    let t1 = t0 + entry("auto_update"@, bool_text(s.auto_update));
    lemma_step_legacy(t0, "auto_update"@, bool_text(s.auto_update));
    let t2 = t1 + entry("tray_day_icon"@, bool_text(s.tray_day_icon));
    lemma_step_legacy(t1, "tray_day_icon"@, bool_text(s.tray_day_icon));
    let t3 = t2 + entry("tray_english_digits"@, bool_text(s.tray_english_digits));
    lemma_step_legacy(t2, "tray_english_digits"@, bool_text(s.tray_english_digits));
    let t4 = t3 + entry("tray_text_white"@, bool_text(s.tray_text_white));
    lemma_step_legacy(t3, "tray_text_white"@, bool_text(s.tray_text_white));
    let t5 = t4 + entry("tray_accent_background"@, bool_text(s.tray_accent_background));
    lemma_step_legacy(t4, "tray_accent_background"@, bool_text(s.tray_accent_background));
    let t6 = t5 + entry("compact_day"@, bool_text(s.compact_day));
    lemma_step_legacy(t5, "compact_day"@, bool_text(s.compact_day));
    let t7 = t6 + entry("autostart"@, bool_text(s.autostart));
    lemma_step_legacy(t6, "autostart"@, bool_text(s.autostart));
}

/// Reading the lines of `text_flags_b`.
#[verifier::rlimit(40)]
proof fn lemma_apply_text_flags_b(st0: Settings, st: Settings, pre: Seq<char>, s: Settings)
    requires
        80 <= s.ui_scale <= 125,
        pre.len() == 0 || pre.last() == '\n',
        apply_from(st0, pre, 0) == st,
    ensures
        apply_from(st0, text_flags_b(pre, s), 0) == set_field(set_field(set_field(set_field(set_field(set_field(set_field(st, "auto_update"@, bool_text(s.auto_update)), "tray_day_icon"@, bool_text(s.tray_day_icon)), "tray_english_digits"@, bool_text(s.tray_english_digits)), "tray_text_white"@, bool_text(s.tray_text_white)), "tray_accent_background"@, bool_text(s.tray_accent_background)), "compact_day"@, bool_text(s.compact_day)), "autostart"@, bool_text(s.autostart)),
{
    lemma_literals();
    lemma_values_clean(s);
    let t0 = pre;
    let t1 = t0 + entry("auto_update"@, bool_text(s.auto_update));
    lemma_step(st0, t0, "auto_update"@, bool_text(s.auto_update), None);
    let t2 = t1 + entry("tray_day_icon"@, bool_text(s.tray_day_icon));
    lemma_step(st0, t1, "tray_day_icon"@, bool_text(s.tray_day_icon), None);
    let t3 = t2 + entry("tray_english_digits"@, bool_text(s.tray_english_digits));
    lemma_step(st0, t2, "tray_english_digits"@, bool_text(s.tray_english_digits), None);
    let t4 = t3 + entry("tray_text_white"@, bool_text(s.tray_text_white));
    lemma_step(st0, t3, "tray_text_white"@, bool_text(s.tray_text_white), None);
    let t5 = t4 + entry("tray_accent_background"@, bool_text(s.tray_accent_background));
    lemma_step(st0, t4, "tray_accent_background"@, bool_text(s.tray_accent_background), None);
    let t6 = t5 + entry("compact_day"@, bool_text(s.compact_day));
    lemma_step(st0, t5, "compact_day"@, bool_text(s.compact_day), None);
    let t7 = t6 + entry("autostart"@, bool_text(s.autostart));
    lemma_step(st0, t6, "autostart"@, bool_text(s.autostart), None);
}

/// Setting every field from the text written for `s` gives `s`.
#[verifier::rlimit(80)]
proof fn lemma_fields(s: Settings, st0: Settings)
    requires
        80 <= s.ui_scale <= 125,
    ensures
        set_field(set_field(set_field(set_field(set_field(set_field(set_field(set_field(set_field(set_field(set_field(set_field(set_field(set_field(set_field(set_field(set_field(set_field(set_field(st0, "theme"@, theme_key(s.theme)), "primary"@, color_text(s.primary)), "accent"@, color_text(s.accent)), "ui_scale"@, nat_decimal(s.ui_scale as nat)), "main_calendar"@, kind_key(s.main_calendar)), "calendar_rtl"@, bool_text(s.calendar_rtl)), "show_jalali"@, bool_text(s.show_jalali)), "show_gregorian"@, bool_text(s.show_gregorian)), "show_hijri"@, bool_text(s.show_hijri)), "show_subtitles"@, bool_text(s.show_subtitles)), "show_events"@, bool_text(s.show_events)), "show_tray_date"@, bool_text(s.show_tray_date)), "auto_update"@, bool_text(s.auto_update)), "tray_day_icon"@, bool_text(s.tray_day_icon)), "tray_english_digits"@, bool_text(s.tray_english_digits)), "tray_text_white"@, bool_text(s.tray_text_white)), "tray_accent_background"@, bool_text(s.tray_accent_background)), "compact_day"@, bool_text(s.compact_day)), "autostart"@, bool_text(s.autostart)) == s,
{
    reveal(set_field);
    lemma_key_codes();
    lemma_literals();
    lemma_theme_key_round_trip(s.theme);
    lemma_kind_key_round_trip(s.main_calendar);
    lemma_trim_clean(theme_key(s.theme));
    lemma_trim_clean(kind_key(s.main_calendar));
    lemma_color_round_trip(s.primary);
    lemma_color_round_trip(s.accent);
    lemma_scale_round_trip(s.ui_scale);
    lemma_bool_round_trip(s.calendar_rtl);
    lemma_bool_round_trip(s.show_jalali);
    lemma_bool_round_trip(s.show_gregorian);
    lemma_bool_round_trip(s.show_hijri);
    lemma_bool_round_trip(s.show_subtitles);
    lemma_bool_round_trip(s.show_events);
    lemma_bool_round_trip(s.show_tray_date);
    lemma_bool_round_trip(s.auto_update);
    lemma_bool_round_trip(s.tray_day_icon);
    lemma_bool_round_trip(s.tray_english_digits);
    lemma_bool_round_trip(s.tray_text_white);
    lemma_bool_round_trip(s.tray_accent_background);
    lemma_bool_round_trip(s.compact_day);
    lemma_bool_round_trip(s.autostart);
}

/// Reading back the text written for some settings gives those settings,
/// whenever their interface scale is one the reader accepts (80 to 125).
pub proof fn lemma_settings_text_round_trip(s: Settings)
    requires
        80 <= s.ui_scale <= 125,
    ensures
        spec_from_text(spec_to_text(s)) == s,
{
    let st0 = default_settings();
    lemma_empty_text(st0, None);
    let h = text_head(s);
    let a = text_flags_a(h, s);
    let b = text_flags_b(a, s);
    lemma_legacy_text_head(s);
    lemma_legacy_text_flags_a(h, s);
    lemma_legacy_text_flags_b(a, s);
    assert(legacy_from(spec_to_text(s), 0, None) == Option::<TrayIconStyle>::None);
    lemma_apply_text_head(st0, st0, s);
    let st1 = set_field(set_field(set_field(set_field(set_field(st0, "theme"@, theme_key(s.theme)), "primary"@, color_text(s.primary)), "accent"@, color_text(s.accent)), "ui_scale"@, nat_decimal(s.ui_scale as nat)), "main_calendar"@, kind_key(s.main_calendar));
    lemma_apply_text_flags_a(st0, st1, h, s);
    let st2 = set_field(set_field(set_field(set_field(set_field(set_field(set_field(st1, "calendar_rtl"@, bool_text(s.calendar_rtl)), "show_jalali"@, bool_text(s.show_jalali)), "show_gregorian"@, bool_text(s.show_gregorian)), "show_hijri"@, bool_text(s.show_hijri)), "show_subtitles"@, bool_text(s.show_subtitles)), "show_events"@, bool_text(s.show_events)), "show_tray_date"@, bool_text(s.show_tray_date));
    lemma_apply_text_flags_b(st0, st2, a, s);
    let st3 = set_field(set_field(set_field(set_field(set_field(set_field(set_field(st2, "auto_update"@, bool_text(s.auto_update)), "tray_day_icon"@, bool_text(s.tray_day_icon)), "tray_english_digits"@, bool_text(s.tray_english_digits)), "tray_text_white"@, bool_text(s.tray_text_white)), "tray_accent_background"@, bool_text(s.tray_accent_background)), "compact_day"@, bool_text(s.compact_day)), "autostart"@, bool_text(s.autostart));
    lemma_fields(s, st0);
    assert(st3 == s);
}

} // verus!
