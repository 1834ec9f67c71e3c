use gahyar::calendar::CalendarKind;
use gahyar::settings::{Settings, Theme, TrayIconStyle};
use gahyar::theme::ThemeColors;

#[test]
fn tray_appearance_migration_and_independent_choices_round_trip() {
    for (legacy, white, colored) in [
        ("transparent_white", true, false),
        ("transparent_black", false, false),
        ("yellow_black", false, true),
    ] {
        let settings = Settings::from_text(&format!("tray_icon_style={legacy}\n"));
        assert_eq!(
            (settings.tray_text_white, settings.tray_accent_background),
            (white, colored)
        );
    }
    for white in [false, true] {
        for colored in [false, true] {
            let settings = Settings {
                tray_text_white: white,
                tray_accent_background: colored,
                ..Settings::default()
            };
            let restored = Settings::from_text(&settings.to_text());
            assert_eq!(
                (restored.tray_text_white, restored.tray_accent_background),
                (white, colored)
            );
        }
    }
    for text in [
        "tray_text_white=true\ntray_accent_background=true\ntray_icon_style=transparent_black",
        "tray_icon_style=transparent_black\ntray_text_white=true\ntray_accent_background=true",
    ] {
        let s = Settings::from_text(text);
        assert!(s.tray_text_white && s.tray_accent_background);
    }
}

#[test]
fn settings_migrate_and_reject_invalid_colors() {
    let legacy = Settings::from_text("theme=light\nui_scale=110\n");
    assert_eq!(
        ThemeColors::from_settings(&legacy),
        ThemeColors::preset(Theme::Light)
    );
    assert_eq!(legacy.ui_scale, 110);
    let invalid = Settings::from_text("accent=#123\ntheme=light\nprimary=invalid\n");
    assert_eq!(
        ThemeColors::from_settings(&invalid),
        ThemeColors::preset(Theme::Light)
    );
    let reordered = Settings::from_text("accent=#010203\nprimary=#040506\ntheme=light\n");
    assert_eq!(reordered.accent, Some([1, 2, 3]));
    assert_eq!(reordered.primary, Some([4, 5, 6]));
}

fn same(a: &Settings, b: &Settings) -> bool {
    a.theme == b.theme
        && a.primary == b.primary
        && a.accent == b.accent
        && a.ui_scale == b.ui_scale
        && a.main_calendar == b.main_calendar
        && a.calendar_rtl == b.calendar_rtl
        && a.show_jalali == b.show_jalali
        && a.show_gregorian == b.show_gregorian
        && a.show_hijri == b.show_hijri
        && a.show_subtitles == b.show_subtitles
        && a.show_events == b.show_events
        && a.show_tray_date == b.show_tray_date
        && a.auto_update == b.auto_update
        && a.tray_day_icon == b.tray_day_icon
        && a.tray_english_digits == b.tray_english_digits
        && a.tray_text_white == b.tray_text_white
        && a.tray_accent_background == b.tray_accent_background
        && a.compact_day == b.compact_day
        && a.autostart == b.autostart
}

#[test]
fn written_settings_read_back_whole() {
    let settings = Settings {
        theme: Theme::Light,
        primary: Some([18, 25, 42]),
        accent: None,
        ui_scale: 125,
        main_calendar: CalendarKind::Hijri,
        calendar_rtl: false,
        show_gregorian: false,
        tray_day_icon: true,
        autostart: true,
        ..Settings::default()
    };
    let restored = Settings::from_text(&settings.to_text());
    assert!(same(&settings, &restored));
    assert!(same(&Settings::from_text(&Settings::default().to_text()), &Settings::default()));
}

#[test]
fn exact_settings_file_text() {
    let text = Settings::default().to_text();
    assert!(text.starts_with("theme=dark\nprimary=\naccent=\nui_scale=100\nmain_calendar=jalali\n"));
    assert!(text.ends_with("compact_day=false\nautostart=false\n"));
    assert_eq!(text.lines().count(), 19);
}

#[test]
fn scale_values_are_read_and_clamped() {
    assert_eq!(Settings::from_text("ui_scale=50").ui_scale, 80);
    assert_eq!(Settings::from_text("ui_scale= 130 \r\n").ui_scale, 125);
    assert_eq!(Settings::from_text("ui_scale=+90").ui_scale, 90);
    assert_eq!(Settings::from_text("ui_scale=-90").ui_scale, 100);
    assert_eq!(Settings::from_text("ui_scale=99999999999").ui_scale, 100);
    assert_eq!(Settings::from_text("ui_scale=").ui_scale, 100);
    assert_eq!(Settings::from_text("ui_scale=12x").ui_scale, 100);
}

#[test]
fn switches_accept_several_spellings() {
    for word in ["true", "1", "yes", "on", " on "] {
        assert!(Settings::from_text(&format!("compact_day={word}")).compact_day);
    }
    for word in ["false", "0", "no", "off", "TRUE", ""] {
        assert!(!Settings::from_text(&format!("autostart={word}")).autostart);
    }
    let s = Settings::from_text("garbage\n = true\nunknown=1\n main_calendar = gregorian \n");
    assert_eq!(s.main_calendar, CalendarKind::Gregorian);
    assert!(same(&Settings::from_text(""), &Settings::default()));
}

#[test]
fn scale_steps() {
    let mut s = Settings::default();
    s.smaller();
    assert_eq!(s.ui_scale, 90);
    s.smaller();
    assert_eq!(s.ui_scale, 80);
    s.smaller();
    assert_eq!(s.ui_scale, 80);
    s.larger();
    assert_eq!(s.ui_scale, 90);
    s.ui_scale = 111;
    s.larger();
    assert_eq!(s.ui_scale, 125);
    s.larger();
    assert_eq!(s.ui_scale, 125);
    s.smaller();
    assert_eq!(s.ui_scale, 110);
    s.ui_scale = 0;
    s.larger();
    assert_eq!(s.ui_scale, 90);
}

#[test]
fn theme_and_tray_style_keys() {
    for t in [Theme::Dark, Theme::Light] {
        assert_eq!(Theme::from_key(t.key()), t);
    }
    assert_eq!(Theme::from_key("blue"), Theme::Dark);
    assert_eq!(Theme::Light.title(), "روشن");
    for s in [
        TrayIconStyle::TransparentWhite,
        TrayIconStyle::TransparentBlack,
        TrayIconStyle::YellowBlack,
    ] {
        assert_eq!(TrayIconStyle::from_key(s.key()), s);
        assert_eq!(s.next().next().next(), s);
    }
    assert_eq!(TrayIconStyle::from_key(""), TrayIconStyle::YellowBlack);
    assert_eq!(TrayIconStyle::YellowBlack.title(), "زرد + مشکی");
}

#[test]
fn scale_buttons_undo_each_other() {
    for scale in [80u32, 90, 100, 110] {
        let mut s = Settings::default();
        s.ui_scale = scale;
        s.larger();
        s.smaller();
        assert_eq!(s.ui_scale, scale);
    }
    for scale in [90u32, 100, 110, 125] {
        let mut s = Settings::default();
        s.ui_scale = scale;
        s.smaller();
        s.larger();
        assert_eq!(s.ui_scale, scale);
    }
    // An unlisted scale lands on a listed one.
    let mut s = Settings::default();
    s.ui_scale = 95;
    s.larger();
    assert_eq!(s.ui_scale, 110);
}
