use etd_picker::color::RgbColor;
use etd_picker::config::AppConfig;
use etd_picker::i18n::Language;
use etd_picker::magnifier::{
    key_held, loupe_action, loupe_hint, loupe_position, loupe_rgb_text, LoupeAction, LoupeKeys,
    MagnifierResult,
};
use etd_picker::settings::{
    apply_settings_selection, hotkey_display_name, key_choice, key_index, modifier_choice,
    modifier_index,
};
use etd_picker::ui::{
    channel_value_text, click_point, tray_change, AppState, TrayChange,
    button_at, channel_label, get_ui_buttons, key_action, ACTION_COPY_HEX, initial_color, language_button_label,
    pick_button_label, recent_swatch_at, recent_swatch_rect, toast_text, toggle_language,
};

fn no_keys() -> LoupeKeys {
    LoupeKeys {
        left_button: false,
        space: false,
        right_button: false,
        escape: false,
        arrow_left: false,
        arrow_right: false,
        arrow_up: false,
        arrow_down: false,
    }
}

#[test]
fn modifier_and_key_lists_match_both_ways() {
    for (i, m) in [1u32, 3, 6, 5].iter().enumerate() {
        assert_eq!(modifier_index(*m), i);
        assert_eq!(modifier_choice(i as isize).0, *m);
    }
    let keys = [0x50u32, 0x43, 0x58, 0x5A, 0x53, 0x77, 0x78, 0x79, 0x7A, 0x7B];
    for (i, k) in keys.iter().enumerate() {
        assert_eq!(key_index(*k), i);
        assert_eq!(key_choice(i as isize).0, *k);
    }
    assert_eq!(modifier_index(2), 0);
    assert_eq!(key_index(0x41), 0);
    assert_eq!(modifier_choice(-1), (1, "Alt"));
    assert_eq!(key_choice(10), (0x50, "P"));
    assert_eq!(key_choice(7), (0x79, "F10"));
    assert_eq!(modifier_choice(3), (5, "Shift + Alt"));
}

#[test]
fn saving_the_settings_window_sets_the_hotkey() {
    let mut c = AppConfig::default();
    apply_settings_selection(&mut c, 1, 2, 9, 1);
    assert_eq!(c.language, Language::English);
    assert_eq!(c.hotkey_mod, 6);
    assert_eq!(c.hotkey_vk, 0x7B);
    assert_eq!(c.hotkey_name, "Ctrl + Shift + F12");
    assert!(c.run_on_startup);
    apply_settings_selection(&mut c, 0, -1, -1, 0);
    assert_eq!(c.language, Language::Turkish);
    assert_eq!(c.hotkey_name, "Alt + P");
    assert!(!c.run_on_startup);
    assert_eq!(hotkey_display_name("Alt", "X"), "Alt + X");
}

#[test]
fn loupe_keys_decide_in_order() {
    let mut k = no_keys();
    assert_eq!(loupe_action(k), LoupeAction::Follow);
    k.arrow_down = true;
    assert_eq!(loupe_action(k), LoupeAction::Nudge(0, 1));
    k.arrow_left = true;
    assert_eq!(loupe_action(k), LoupeAction::Nudge(-1, 0));
    k.escape = true;
    assert_eq!(loupe_action(k), LoupeAction::Cancel);
    k.space = true;
    assert_eq!(loupe_action(k), LoupeAction::Pick);
    assert!(key_held(-32768));
    assert!(key_held(-32767));
    assert!(!key_held(1));
    assert!(!key_held(0));
}

#[test]
fn loupe_sits_beside_the_cursor() {
    assert_eq!(loupe_position(100, 100, 1920, 1080), (124, 124));
    assert_eq!(loupe_position(1900, 1000, 1920, 1080), (1696, 726));
    assert_eq!(loupe_position(100, 100, 200, 200), (0, 0));
}

#[test]
fn buttons_and_clicks() {
    let b = get_ui_buttons();
    assert_eq!(b.len(), 9);
    assert_eq!(b[8].action_id, 500);
    assert_eq!(button_at(340, 16), Some(101));
    assert_eq!(button_at(480, 44), Some(103));
    assert_eq!(button_at(385, 30), None);
    assert_eq!(button_at(250, 400), Some(500));
    assert_eq!(button_at(0, 0), None);
}

#[test]
fn recent_swatches_are_hit_by_position() {
    assert_eq!(recent_swatch_at(20, 310, 10), Some(0));
    assert_eq!(recent_swatch_at(66, 350, 10), Some(1));
    assert_eq!(recent_swatch_at(59, 320, 10), None);
    assert_eq!(recent_swatch_at(66, 320, 1), None);
    assert_eq!(recent_swatch_at(20, 309, 10), None);
    assert_eq!(recent_swatch_at(20 + 46 * 10, 320, 20), None);
}

#[test]
fn window_texts() {
    assert_eq!(toast_text("✓ Copied to Clipboard!", "#FF5733"), "✓ Copied to Clipboard! (#FF5733)");
    assert_eq!(pick_button_label("🎯 Pick Color", ""), "🎯 Pick Color (Alt + P)");
    assert_eq!(pick_button_label("🎯 Pick Color", "Ctrl + Alt + F9"), "🎯 Pick Color (Ctrl + Alt + F9)");
    assert_eq!(channel_label("R: ", 243), "R: 243");
    assert_eq!(language_button_label(Language::Turkish), "TR");
    assert_eq!(language_button_label(Language::English), "EN");
    assert_eq!(toggle_language(Language::Turkish), Language::English);
    assert_eq!(toggle_language(toggle_language(Language::English)), Language::English);
}

#[test]
fn initial_color_is_the_first_recent_one() {
    let mut c = AppConfig::default();
    assert_eq!(initial_color(&c), RgbColor::new(52, 152, 219));
    c.recent_colors = vec![RgbColor::new(1, 2, 3)];
    assert_eq!(initial_color(&c), RgbColor::new(1, 2, 3));
    c.recent_colors = Vec::new();
    assert_eq!(initial_color(&c), RgbColor::new(52, 152, 219));
}

#[test]
fn drawn_swatches_are_where_clicks_find_them() {
    for i in 0..10usize {
        let r = recent_swatch_rect(i);
        assert_eq!((r.left, r.top, r.right, r.bottom), (20 + 46 * i as i32, 310, 58 + 46 * i as i32, 348));
        assert_eq!(recent_swatch_at(r.left, r.top, 10), Some(i));
        assert_eq!(recent_swatch_at(r.right, r.bottom, 10), Some(i));
    }
}

#[test]
fn ctrl_c_copies_the_hex_code() {
    assert_eq!(key_action(0x43, true), Some(ACTION_COPY_HEX));
    assert_eq!(key_action(0x43, false), None);
    assert_eq!(key_action(0x50, true), None);
}

fn fresh_state() -> AppState {
    AppState {
        config: AppConfig::default(),
        active_color: RgbColor::new(52, 152, 219),
        toast_visible: false,
        toast_text: String::new(),
        app_hwnd: 7,
        tray_active: true,
    }
}

#[test]
fn picking_a_color_makes_it_active_and_recent() {
    let mut st = fresh_state();
    let picked = RgbColor::new(255, 87, 51);
    let copy = st.apply_pick(&MagnifierResult { selected: true, color: picked });
    assert_eq!(copy.as_deref(), Some("#FF5733"));
    assert_eq!(st.active_color, picked);
    assert_eq!(st.config.recent_colors[0], picked);
    assert_eq!(st.config.recent_colors.len(), 10);
    assert_eq!(st.config.recent_colors[1], RgbColor::new(52, 152, 219));

    let copy = st.apply_pick(&MagnifierResult { selected: false, color: RgbColor::new(1, 1, 1) });
    assert_eq!(copy, None);
    assert_eq!(st.active_color, picked);
    assert_eq!(st.config.recent_colors[0], picked);
}

#[test]
fn language_switch_and_copy_notice() {
    let mut st = fresh_state();
    st.switch_language();
    assert_eq!(st.config.language, Language::English);
    st.switch_language();
    assert_eq!(st.config.language, Language::Turkish);
    st.show_copy_notice("✓ Copied to Clipboard!", "12");
    assert!(st.toast_visible);
    assert_eq!(st.toast_text, "✓ Copied to Clipboard! (12)");
    assert_eq!(st.app_hwnd, 7);
}

#[test]
fn tray_icon_follows_the_setting() {
    assert_eq!(tray_change(true, false), TrayChange::Add);
    assert_eq!(tray_change(false, true), TrayChange::Remove);
    assert_eq!(tray_change(true, true), TrayChange::Keep);
    assert_eq!(tray_change(false, false), TrayChange::Keep);
}

#[test]
fn click_points_and_channel_texts() {
    assert_eq!(click_point(((320 << 16) | 45) as isize), (45, 320));
    assert_eq!(click_point(0x1234_0056), (0x56, 0x1234));
    assert_eq!(channel_value_text(0), "0");
    assert_eq!(channel_value_text(255), "255");
    assert_eq!(loupe_rgb_text(RgbColor::new(243, 156, 18)), "RGB: 243, 156, 18");
    assert_eq!(loupe_hint(Language::Turkish), "[Tık/Space: Seç] [Esc: İptal]");
    assert_eq!(loupe_hint(Language::English), "[Click/Space: Pick] [Esc: Cancel]");
}
