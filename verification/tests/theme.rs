use gahyar::settings::{Settings, Theme};
use gahyar::theme::{hex, parse_hex, ThemeColors};

#[test]
fn hex_validation_and_round_trip() {
    for value in ["#000000", "FFFFFF", " #aBc123 "] {
        let color = parse_hex(value).unwrap();
        assert_eq!(parse_hex(&hex(color)), Some(color));
    }
    for value in ["", "#123", "#12345678", "GG0000", "۱۲۳۴۵۶", "12345💛"] {
        assert_eq!(parse_hex(value), None);
    }
}

#[test]
fn legacy_settings_keep_preset_and_customization_resets() {
    for theme in [Theme::Dark, Theme::Light] {
        let mut settings = Settings {
            theme,
            ..Settings::default()
        };
        assert_eq!(
            ThemeColors::from_settings(&settings),
            ThemeColors::preset(theme)
        );
        let custom = ThemeColors {
            primary: [20, 40, 60],
            accent: [0, 100, 250],
            ..ThemeColors::preset(theme)
        };
        custom.apply(&mut settings);
        assert_eq!(ThemeColors::from_settings(&settings), custom);
        assert!(custom.is_custom());
        ThemeColors::preset(theme).apply(&mut settings);
        assert!(!ThemeColors::from_settings(&settings).is_custom());
        // JSON round trip of the colour values.
        let encoded =
            serde_json::to_string(&(custom.theme.key(), custom.primary, custom.accent)).unwrap();
        let (key, primary, accent): (String, [u8; 3], [u8; 3]) =
            serde_json::from_str(&encoded).unwrap();
        let decoded = ThemeColors {
            theme: Theme::from_key(&key),
            primary,
            accent,
        };
        assert_eq!(decoded, custom);
    }
}

#[test]
fn hex_is_upper_case_with_hash() {
    assert_eq!(hex([18, 52, 86]), "#123456");
    assert_eq!(hex([255, 10, 0]), "#FF0A00");
    assert_eq!(parse_hex("#ff0a00"), Some([255, 10, 0]));
    assert_eq!(parse_hex("\t0A0b0C\n"), Some([10, 11, 12]));
    assert_eq!(parse_hex("##123456"), None);
}

#[test]
fn colour_titles() {
    assert_eq!(ThemeColors::preset(Theme::Dark).title(), "تیره");
    let custom = ThemeColors {
        accent: [1, 2, 3],
        ..ThemeColors::preset(Theme::Dark)
    };
    assert_eq!(custom.title(), "سفارشی");
    assert_eq!(ThemeColors::preset(Theme::Light).primary, [231, 233, 236]);
    assert_eq!(ThemeColors::preset(Theme::Dark).accent, [248, 211, 88]);
}
