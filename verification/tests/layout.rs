use gahyar::layout::{
    calendar_column, channels, clamp_scroll, contains, control_rect, fit_scale, hit_test,
    picker_closed, popup_origin, positions, resized_top, reveal_scroll, rgb, row_top, scaled,
    scaled_rect, scrollbar_target, set_target_color, target_color, unscaled, wheel_target,
    BASE_WIDTH, HEIGHT, PanelState, Rect, Target, WIDTH,
};
use gahyar::settings::{Settings, Theme};
use gahyar::theme::{hex, parse_hex, ThemeColors};

#[test]
fn settings_and_calendar_fit_beside_each_other_on_either_monitor() {
    for work in [
        Rect {
            left: 0,
            top: 0,
            right: 1920,
            bottom: 1040,
        },
        Rect {
            left: -1920,
            top: -200,
            right: 0,
            bottom: 840,
        },
    ] {
        for left in [work.left + 8, work.left + 600, work.right - 438] {
            let calendar = Rect {
                left,
                top: work.bottom - 700,
                right: left + 430,
                bottom: work.bottom - 8,
            };
            let (main_x, settings_x, y) = positions(work, calendar, 447, 900);
            assert!(main_x >= work.left && main_x + 430 <= work.right);
            assert!(settings_x >= work.left && settings_x + 447 <= work.right);
            assert!(settings_x + 447 <= main_x || main_x + 430 <= settings_x);
            assert!(y >= work.top && y + 900 <= work.bottom);
        }
    }
}

#[test]
fn centering_and_scaled_pair_fit_small_and_negative_monitors() {
    for screen_width in [1280, 1366, 1920, 2560] {
        for scale in [80, 100, 125] {
            let work = Rect {
                left: -screen_width,
                top: -200,
                right: 0,
                bottom: 840,
            };
            let cw = scaled(BASE_WIDTH, scale);
            let effective = fit_scale(scale, screen_width, cw, 17);
            let sw = scaled(WIDTH, effective) + 17;
            let sh = scaled(HEIGHT, effective);
            let calendar = Rect {
                left: -cw - 8,
                top: 0,
                right: -8,
                bottom: 600,
            };
            let (cx, sx, y) = positions(work, calendar, sw, sh);
            assert!(sx >= work.left && sx + sw <= work.right);
            assert!(sx + sw <= cx || cx + cw <= sx);
            let ideal = (calendar.top + calendar.bottom - sh) / 2;
            assert_eq!(y, ideal.clamp(work.top + 8, work.bottom - 8 - sh));
        }
    }
}

#[test]
fn calendar_columns_follow_selected_direction() {
    assert_eq!(calendar_column(0, true), 6);
    assert_eq!(calendar_column(6, true), 0);
    assert_eq!(calendar_column(0, false), 0);
    assert_eq!(calendar_column(6, false), 6);
    for column in 0..7 {
        assert_eq!(calendar_column(calendar_column(column, true), true), column);
    }
}

#[test]
fn picker_regions_do_not_overlap_presets_scale_or_each_other() {
    assert_eq!(hit_test(100, 120), None);
    assert_eq!(hit_test(100, 122), Some(Target::Primary));
    assert_eq!(hit_test(300, 142), Some(Target::Accent));
    assert_eq!(hit_test(215, 142), None);
    assert_eq!(hit_test(100, 162), None);
    assert_eq!(hit_test(100, 166), None);
    for scale in [80, 90, 100, 110, 125] {
        let x = unscaled(scaled(300, scale), scale);
        let y = unscaled(scaled(142, scale), scale);
        assert_eq!(hit_test(x, y), Some(Target::Accent));
    }
}

#[test]
fn scaling_rounds_half_up() {
    assert_eq!(scaled(430, 125), 538);
    assert_eq!(scaled(430, 80), 344);
    assert_eq!(scaled(3, 50), 2);
    assert_eq!(scaled(-3, 50), -1);
    assert_eq!(unscaled(538, 125), 430);
    assert_eq!(unscaled(1, 3), 33);
    let r = scaled_rect(Rect { left: 10, top: 20, right: 30, bottom: 40 }, 150);
    assert_eq!(r, Rect { left: 15, top: 30, right: 45, bottom: 60 });
}

#[test]
fn fit_scale_shrinks_only_when_needed() {
    assert_eq!(fit_scale(125, 2560, 538, 17), 125);
    // 1280 - 430 - 24 - 17 = 809 pixels: 809 * 100 / 740 = 109 percent.
    assert_eq!(fit_scale(125, 1280, 430, 17), 109);
    assert_eq!(fit_scale(100, 100, 430, 17), 1);
}

#[test]
fn panel_geometry() {
    assert_eq!(row_top(0, 0), 106);
    assert_eq!(row_top(2, 1), 214);
    assert_eq!(row_top(2, 3), 230);
    assert_eq!(control_rect(0, 0, 1, true, 0), Rect { left: 38, top: 121, right: 80, bottom: 145 });
    assert_eq!(control_rect(1, 1, 2, false, 0), Rect { left: 40, top: 180, right: 156, bottom: 212 });
    let r = Rect { left: 0, top: 0, right: 10, bottom: 10 };
    assert!(contains(r, 0, 0));
    assert!(!contains(r, 10, 5));
    assert!(!contains(r, 5, -1));
    let mut state = PanelState { page: 2, focus: 3 };
    state.select_page(9);
    assert_eq!(state, PanelState { page: 4, focus: -1 });
    state.select_page(1);
    assert_eq!(state.page, 1);
}

#[test]
fn picking_one_colour_keeps_the_other() {
    let mut settings = Settings::default();
    set_target_color(&mut settings, Target::Accent, [1, 2, 3]);
    assert_eq!(settings.accent, Some([1, 2, 3]));
    assert_eq!(settings.primary, Some(ThemeColors::preset(Theme::Dark).primary));
    set_target_color(&mut settings, Target::Primary, [9, 9, 9]);
    assert_eq!(settings.primary, Some([9, 9, 9]));
    assert_eq!(settings.accent, Some([1, 2, 3]));
}

#[test]
fn colorref_channel_order() {
    assert_eq!(rgb(18, 52, 86), 0x00563412);
    assert_eq!(rgb(255, 0, 0), 0xff);
    assert_eq!(rgb(0, 0, 255), 0xff0000);
}

#[test]
fn theme_palettes_use_windows_colour_order() {
    let dark = gahyar::layout::Palette::from_theme(gahyar::settings::Theme::Dark);
    assert_eq!(dark.accent, 0x0058_D3F8);
    assert_eq!(dark.background, gahyar::layout::rgb(30, 31, 33));
    let light = gahyar::layout::Palette::from_theme(gahyar::settings::Theme::Light);
    assert_eq!(light.holiday, 0x0031_31CE);
    assert_ne!(dark, light);
}

#[test]
fn settings_window_scroll_positions() {
    // A 900-high panel in a 600-high window scrolls from 0 to 300.
    assert_eq!(clamp_scroll(-5, 900, 600), 0);
    assert_eq!(clamp_scroll(120, 900, 600), 120);
    assert_eq!(clamp_scroll(500, 900, 600), 300);
    // A window taller than the panel does not scroll.
    assert_eq!(clamp_scroll(50, 500, 600), 0);
    // A control above the window scrolls up to it, one below down to it.
    assert_eq!(reveal_scroll(200, 100, 150, 900, 600), 100);
    assert_eq!(reveal_scroll(0, 700, 760, 900, 600), 160);
    assert_eq!(reveal_scroll(100, 300, 350, 900, 600), 100);
    assert_eq!(reveal_scroll(0, 880, 950, 900, 600), 300);
}

#[test]
fn windows_colorref_channel_order_round_trips() {
    for color in [[255u8, 0, 0], [0, 255, 0], [0, 0, 255], [18, 52, 86]] {
        let packed = rgb(color[0], color[1], color[2]);
        assert_eq!(channels(packed), color);
        assert_eq!(parse_hex(&hex(channels(packed))), Some(color));
    }
    assert_eq!(rgb(18, 52, 86), 0x00563412);
}

#[test]
fn scaling_to_the_screen_and_back() {
    for scale in [100u32, 110, 125, 150, 200] {
        for value in [0, 1, 2, 142, 300, 877] {
            assert_eq!(unscaled(scaled(value, scale), scale), value);
        }
    }
    // Below 100% a pixel holds more than one coordinate.
    assert_eq!(unscaled(scaled(2, 80), 80), 3);
}

#[test]
fn settings_window_scroll_requests() {
    assert_eq!(scrollbar_target(0, 100, 500, 7, 900), 68);
    assert_eq!(scrollbar_target(1, 100, 500, 7, 900), 132);
    assert_eq!(scrollbar_target(2, 100, 500, 7, 900), -400);
    assert_eq!(scrollbar_target(3, 100, 500, 7, 900), 600);
    assert_eq!(scrollbar_target(4, 100, 500, 7, 900), 7);
    assert_eq!(scrollbar_target(5, 100, 500, 7, 900), 7);
    assert_eq!(scrollbar_target(6, 100, 500, 7, 900), 0);
    assert_eq!(scrollbar_target(7, 100, 500, 7, 900), 900);
    assert_eq!(scrollbar_target(8, 100, 500, 7, 900), 100);
    // One notch of the wheel moves 48 units at 100%, 60 at 125%.
    assert_eq!(wheel_target(200, -120, 100), 248);
    assert_eq!(wheel_target(200, 120, 100), 152);
    assert_eq!(wheel_target(200, 120, 125), 140);
    assert_eq!(wheel_target(200, 60, 100), 176);
}

#[test]
fn colour_picker_accepts_and_cancels() {
    let mut settings = Settings::default();
    let initial = target_color(&settings, Target::Accent);
    let primary = target_color(&settings, Target::Primary);
    // A preview changes the accent while the picker is open.
    set_target_color(&mut settings, Target::Accent, [1, 2, 3]);
    assert_eq!(target_color(&settings, Target::Accent), [1, 2, 3]);
    // Cancelling brings the colour from before back, with nothing to save.
    let mut cancelled = settings;
    assert!(picker_closed(&mut cancelled, Target::Accent, initial, None).is_none());
    assert_eq!(target_color(&cancelled, Target::Accent), initial);
    assert_eq!(target_color(&cancelled, Target::Primary), primary);
    // Accepting keeps the picked colour and offers the old one as fallback.
    let mut accepted = settings;
    let fallback = picker_closed(&mut accepted, Target::Accent, initial, Some([9, 8, 7])).unwrap();
    assert_eq!(target_color(&accepted, Target::Accent), [9, 8, 7]);
    assert_eq!(target_color(&accepted, Target::Primary), primary);
    assert_eq!(target_color(&fallback, Target::Accent), initial);
}

#[test]
fn calendar_window_placement() {
    let work = Rect { left: 0, top: 0, right: 1920, bottom: 1040 };
    // Centred under the pointer, above the taskbar.
    assert_eq!(popup_origin(1000, work, 430, 600), (785, 432));
    // Kept 8 pixels inside either side.
    assert_eq!(popup_origin(10, work, 430, 600), (8, 432));
    assert_eq!(popup_origin(1910, work, 430, 600), (1482, 432));
    // A window on a monitor left of the primary one.
    let left = Rect { left: -1280, top: 0, right: 0, bottom: 984 };
    assert_eq!(popup_origin(-5, left, 430, 600), (-438, 376));
    // Growing keeps the bottom edge, or the top edge when asked.
    let window = Rect { left: 100, top: 400, right: 530, bottom: 1000 };
    assert_eq!(resized_top(window, 700, true), 300);
    assert_eq!(resized_top(window, 700, false), 400);
}
