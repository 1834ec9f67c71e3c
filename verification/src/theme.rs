//! Theme colours: presets, custom colours kept in the settings, and the
//! `#RRGGBB` notation.
use vstd::prelude::*;
use crate::settings::{Settings, Theme, theme_title};
use crate::text::{chars_of, trim, trim_bounds};

verus! {

#[derive(Clone, Copy, Debug, PartialEq, Eq)]
pub struct ThemeColors {
    pub theme: Theme,
    pub primary: [u8; 3],
    pub accent: [u8; 3],
}

/// Built-in primary colour of a theme.
pub open spec fn preset_primary(theme: Theme) -> [u8; 3] {
    match theme {
        Theme::Dark => [30, 31, 33],
        Theme::Light => [231, 233, 236],
    }
}

/// Built-in accent colour of a theme.
pub open spec fn preset_accent(theme: Theme) -> [u8; 3] {
    match theme {
        Theme::Dark => [248, 211, 88],
        Theme::Light => [230, 181, 43],
    }
}

pub open spec fn spec_preset(theme: Theme) -> ThemeColors {
    ThemeColors { theme, primary: preset_primary(theme), accent: preset_accent(theme) }
}

/// The colours in effect: the theme's preset, overridden by custom colours.
pub open spec fn colors_of(s: Settings) -> ThemeColors {
    ThemeColors {
        theme: s.theme,
        primary: match s.primary {
            Some(c) => c,
            None => preset_primary(s.theme),
        },
        accent: match s.accent {
            Some(c) => c,
            None => preset_accent(s.theme),
        },
    }
}

/// The colours differ from their theme's preset.
pub open spec fn spec_is_custom(c: ThemeColors) -> bool {
    c.primary@ != preset_primary(c.theme)@ || c.accent@ != preset_accent(c.theme)@
}

fn same_color(a: [u8; 3], b: [u8; 3]) -> (r: bool)
    ensures
        r == (a@ == b@),
{
    let r = a[0] == b[0] && a[1] == b[1] && a[2] == b[2];
    if r {
        assert(a@ =~= b@);
    }
    r
}

impl ThemeColors {
    pub fn preset(theme: Theme) -> (r: Self)
        ensures
            r == spec_preset(theme),
    {
        let (primary, accent) = match theme {
            Theme::Dark => ([30, 31, 33], [248, 211, 88]),
            Theme::Light => ([231, 233, 236], [230, 181, 43]),
        };
        ThemeColors { theme, primary, accent }
    }

    pub fn from_settings(settings: &Settings) -> (r: Self)
        ensures
            r == colors_of(*settings),
    {
        let mut colors = Self::preset(settings.theme);
        colors.primary = match settings.primary {
            Some(c) => c,
            None => colors.primary,
        };
        colors.accent = match settings.accent {
            Some(c) => c,
            None => colors.accent,
        };
        colors
    }

    pub fn apply(self, settings: &mut Settings)
        ensures
            *final(settings) == (Settings {
                theme: self.theme,
                primary: Some(self.primary),
                accent: Some(self.accent),
                ..*old(settings)
            }),
    {
        settings.theme = self.theme;
        settings.primary = Some(self.primary);
        settings.accent = Some(self.accent);
    }

    pub fn is_custom(self) -> (r: bool)
        ensures
            r == spec_is_custom(self),
    {
        let preset = Self::preset(self.theme);
        !same_color(self.primary, preset.primary) || !same_color(self.accent, preset.accent)
    }

    pub fn title(self) -> (r: &'static str)
        ensures
            r@ == if spec_is_custom(self) {
                "سفارشی"@
            } else {
                theme_title(self.theme)
            },
    {
        if self.is_custom() {
            "سفارشی"
        } else {
            self.theme.title()
        }
    }
}

// ---------------------------------------------------------------------------
// #RRGGBB
// ---------------------------------------------------------------------------

pub open spec fn is_hex_digit(c: char) -> bool {
    let u = c as u32;
    (48 <= u <= 57) || (97 <= u <= 102) || (65 <= u <= 70)
}

pub open spec fn hex_val(c: char) -> int {
    let u = c as u32;
    if 48 <= u <= 57 {
        u - 48
    } else if 97 <= u <= 102 {
        u - 87
    } else {
        u - 55
    }
}

/// The text after trimming and dropping one leading '#'.
pub open spec fn hex_body(s: Seq<char>) -> Seq<char> {
    let t = trim(s);
    if t.len() > 0 && t[0] == '#' {
        t.drop_first()
    } else {
        t
    }
}

/// Exactly six hexadecimal digits remain.
pub open spec fn hex_ok(s: Seq<char>) -> bool {
    let b = hex_body(s);
    b.len() == 6 && forall|i: int| 0 <= i < 6 ==> #[trigger] is_hex_digit(b[i])
}

pub open spec fn hex_pair(b: Seq<char>, i: int) -> u8 {
    (16 * hex_val(b[i]) + hex_val(b[i + 1])) as u8
}

pub open spec fn spec_parse_hex(s: Seq<char>) -> Option<[u8; 3]> {
    if hex_ok(s) {
        let b = hex_body(s);
        Some([hex_pair(b, 0), hex_pair(b, 2), hex_pair(b, 4)])
    } else {
        None
    }
}

fn hex_digit_value(c: char) -> (r: u8)
    requires
        is_hex_digit(c),
    ensures
        r == hex_val(c),
        r < 16,
{
    let u = c as u32;
    if 48 <= u && u <= 57 {
        (u - 48) as u8
    } else if 97 <= u && u <= 102 {
        (u - 87) as u8
    } else {
        (u - 55) as u8
    }
}

fn is_hex(c: char) -> (r: bool)
    ensures
        r == is_hex_digit(c),
{
    let u = c as u32;
    (48 <= u && u <= 57) || (97 <= u && u <= 102) || (65 <= u && u <= 70)
}

/// `parse_hex` on `chars[lo..hi]`.
pub fn parse_hex_range(chars: &Vec<char>, lo: usize, hi: usize) -> (r: Option<[u8; 3]>)
    requires
        lo <= hi <= chars@.len(),
    ensures
        r == spec_parse_hex(chars@.subrange(lo as int, hi as int)),
{
    let ghost s = chars@.subrange(lo as int, hi as int);
    let (mut a, b) = trim_bounds(chars, lo, hi);
    if a < b && chars[a] == '#' {
        assert(chars@.subrange(a as int, b as int).drop_first() =~= chars@.subrange(a + 1, b as int));
        a += 1;
    }
    assert(chars@.subrange(a as int, b as int) == hex_body(s));
    if b - a != 6 {
        return None;
    }
    let mut i: usize = 0;
    while i < 6
        invariant
            b - a == 6,
            a <= b <= chars@.len(),
            i <= 6,
            forall|k: int| 0 <= k < i ==> #[trigger] is_hex_digit(chars@[a + k]),
            chars@.subrange(a as int, b as int) == hex_body(s),
            s == chars@.subrange(lo as int, hi as int),
        decreases 6 - i,
    {
        if !is_hex(chars[a + i]) {
            assert(!is_hex_digit(hex_body(s)[i as int]));
            assert(!hex_ok(s));
            return None;
        }
        i += 1;
    }
    assert(hex_ok(s)) by {
        assert forall|k: int| 0 <= k < 6 implies #[trigger] is_hex_digit(hex_body(s)[k]) by {
            assert(hex_body(s)[k] == chars@[a + k]);
        }
    }
    let d0 = hex_digit_value(chars[a]);
    let d1 = hex_digit_value(chars[a + 1]);
    let d2 = hex_digit_value(chars[a + 2]);
    let d3 = hex_digit_value(chars[a + 3]);
    let d4 = hex_digit_value(chars[a + 4]);
    let d5 = hex_digit_value(chars[a + 5]);
    let color: [u8; 3] = [16 * d0 + d1, 16 * d2 + d3, 16 * d4 + d5];
    proof {
        let body = hex_body(s);
        assert(color =~= [hex_pair(body, 0), hex_pair(body, 2), hex_pair(body, 4)]);
    }
    Some(color)
}

/// Reads `#RRGGBB` or `RRGGBB`, surrounded by any whitespace.
pub fn parse_hex(value: &str) -> (r: Option<[u8; 3]>)
    ensures
        r == spec_parse_hex(value@),
{
    let chars = chars_of(value);
    assert(chars@.subrange(0, chars@.len() as int) =~= value@);
    parse_hex_range(&chars, 0, chars.len())
}

/// Upper-case hexadecimal digit of `d` in 0..16.
pub open spec fn hex_char(d: int) -> char {
    if d < 10 {
        (48 + d) as char
    } else {
        (55 + d) as char
    }
}

pub open spec fn hex_byte(b: u8) -> Seq<char> {
    seq![hex_char((b / 16) as int), hex_char((b % 16) as int)]
}

/// `#RRGGBB` with upper-case digits.
pub open spec fn spec_hex(color: [u8; 3]) -> Seq<char> {
    seq!['#'] + hex_byte(color[0]) + hex_byte(color[1]) + hex_byte(color[2])
}

fn hex_digit_str(d: u8) -> (r: &'static str)
    requires
        d < 16,
    ensures
        r@ == seq![hex_char(d as int)],
{
    proof {
        reveal_strlit("0");
        reveal_strlit("1");
        reveal_strlit("2");
        reveal_strlit("3");
        reveal_strlit("4");
        reveal_strlit("5");
        reveal_strlit("6");
        reveal_strlit("7");
        reveal_strlit("8");
        reveal_strlit("9");
        reveal_strlit("A");
        reveal_strlit("B");
        reveal_strlit("C");
        reveal_strlit("D");
        reveal_strlit("E");
        reveal_strlit("F");
    }
    match d {
        0 => "0",
        1 => "1",
        2 => "2",
        3 => "3",
        4 => "4",
        5 => "5",
        6 => "6",
        7 => "7",
        8 => "8",
        9 => "9",
        10 => "A",
        11 => "B",
        12 => "C",
        13 => "D",
        14 => "E",
        _ => "F",
    }
}

pub fn hex(color: [u8; 3]) -> (r: String)
    ensures
        r@ == spec_hex(color),
{
    let mut text = String::new();
    text.append("#");
    proof {
        reveal_strlit("#");
    }
    let mut i: usize = 0;
    while i < 3
        invariant
            i <= 3,
            text@ == seq!['#'] + if i == 0 {
                Seq::<char>::empty()
            } else if i == 1 {
                hex_byte(color[0])
            } else if i == 2 {
                hex_byte(color[0]) + hex_byte(color[1])
            } else {
                hex_byte(color[0]) + hex_byte(color[1]) + hex_byte(color[2])
            },
        decreases 3 - i,
    {
        let b = color[i];
        text.append(hex_digit_str(b / 16));
        text.append(hex_digit_str(b % 16));
        proof {
            if i == 0 {
                assert(text@ =~= seq!['#'] + hex_byte(color[0]));
            } else if i == 1 {
                assert(text@ =~= seq!['#'] + (hex_byte(color[0]) + hex_byte(color[1])));
            } else {
                assert(text@ =~= seq!['#'] + (hex_byte(color[0]) + hex_byte(color[1]) + hex_byte(
                    color[2],
                )));
            }
        }
        i += 1;
    }
    assert(text@ =~= spec_hex(color));
    text
}


proof fn lemma_hex_char(d: int)
    requires
        0 <= d < 16,
    ensures
        is_hex_digit(hex_char(d)),
        hex_val(hex_char(d)) == d,
        !crate::text::is_ws(hex_char(d)),
{
}

/// Reading back a written colour gives the colour: `parse_hex(hex(c)) == Some(c)`.
pub proof fn lemma_parse_hex_of_hex(color: [u8; 3])
    ensures
        spec_parse_hex(spec_hex(color)) == Some(color),
{
    let t = spec_hex(color);
    lemma_hex_char((color[0] / 16) as int);
    lemma_hex_char((color[0] % 16) as int);
    lemma_hex_char((color[1] / 16) as int);
    lemma_hex_char((color[1] % 16) as int);
    lemma_hex_char((color[2] / 16) as int);
    lemma_hex_char((color[2] % 16) as int);
    assert(t.len() == 7);
    assert(t[0] == '#');
    assert(crate::text::trim_start(t) == t);
    assert(crate::text::trim_end(t) == t);
    let b = hex_body(t);
    assert(b =~= t.drop_first());
    assert(forall|i: int| 0 <= i < 6 ==> #[trigger] is_hex_digit(b[i]));
    let parsed = [hex_pair(b, 0), hex_pair(b, 2), hex_pair(b, 4)];
    assert(parsed =~= color);
}

/// The colours in effect after `apply` are the applied colours.
pub proof fn lemma_apply_then_read(colors: ThemeColors, s: Settings)
    ensures
        colors_of(Settings {
            theme: colors.theme,
            primary: Some(colors.primary),
            accent: Some(colors.accent),
            ..s
        }) == colors,
{
}

/// A preset is never custom, and settings without custom colours show
/// their theme's preset.
pub proof fn lemma_preset_not_custom(theme: Theme, s: Settings)
    ensures
        !spec_is_custom(spec_preset(theme)),
        s.primary is None && s.accent is None ==> colors_of(s) == spec_preset(s.theme),
{
}

} // verus!
