use etd_picker::color::RgbColor;
use etd_picker::config::AppConfig;
use etd_picker::i18n::Language;

fn default_colors() -> Vec<RgbColor> {
    vec![
        RgbColor::new(52, 152, 219),
        RgbColor::new(46, 204, 113),
        RgbColor::new(231, 76, 60),
        RgbColor::new(241, 196, 15),
        RgbColor::new(155, 89, 182),
        RgbColor::new(26, 188, 156),
        RgbColor::new(230, 126, 34),
        RgbColor::new(52, 73, 94),
        RgbColor::new(236, 240, 241),
        RgbColor::new(44, 62, 80),
    ]
}

#[test]
fn default_settings() {
    let c = AppConfig::default();
    assert_eq!(c.language, Language::Turkish);
    assert_eq!(c.hotkey_mod, 1);
    assert_eq!(c.hotkey_vk, 0x50);
    assert_eq!(c.hotkey_name, "Alt + P");
    assert!(!c.run_on_startup);
    assert!(c.show_tray_icon);
    assert_eq!(c.recent_colors, default_colors());
}

#[test]
fn parse_empty_gives_defaults() {
    let c = AppConfig::parse("");
    assert_eq!(c.language, Language::Turkish);
    assert_eq!(c.hotkey_name, "Alt + P");
    assert_eq!(c.recent_colors, default_colors());
}

#[test]
fn parse_reads_each_setting() {
    let text = "[Settings]\r\nlanguage = EN\r\nhotkey_mod=3\nhotkey_vk=+121\nhotkey_name= Ctrl + Alt + F10 \nrun_on_startup=1\nshow_tray_icon=false\nrecent_colors=#FF0000, 00ff00 ,bad,#0000FF\n";
    let c = AppConfig::parse(text);
    assert_eq!(c.language, Language::English);
    assert_eq!(c.hotkey_mod, 3);
    assert_eq!(c.hotkey_vk, 121);
    assert_eq!(c.hotkey_name, "Ctrl + Alt + F10");
    assert!(c.run_on_startup);
    assert!(!c.show_tray_icon);
    assert_eq!(
        c.recent_colors,
        vec![RgbColor::new(255, 0, 0), RgbColor::new(0, 255, 0), RgbColor::new(0, 0, 255)]
    );
}

#[test]
fn parse_ignores_comments_blank_and_bad_lines() {
    let text = "# language=en\n; hotkey_mod=5\n\n   \nnot a setting\nunknown=1\nhotkey_mod=-1\nhotkey_vk=4294967296\nhotkey_name=\nrun_on_startup=yes\nrecent_colors=,,zz\n";
    let c = AppConfig::parse(text);
    assert_eq!(c.language, Language::Turkish);
    assert_eq!(c.hotkey_mod, 1);
    assert_eq!(c.hotkey_vk, 0x50);
    assert_eq!(c.hotkey_name, "Alt + P");
    assert!(!c.run_on_startup);
    assert_eq!(c.recent_colors, default_colors());
}

#[test]
fn parse_splits_at_the_first_equals_and_later_lines_win() {
    let c = AppConfig::parse("hotkey_name=a=b\nhotkey_vk=4294967295\nhotkey_vk=7");
    assert_eq!(c.hotkey_name, "a=b");
    assert_eq!(c.hotkey_vk, 7);
}

#[test]
fn text_splits_char_marks_bad_color_lists() {
    assert!(AppConfig::text_splits_char("recent_colors=#aé123"));
    assert!(!AppConfig::text_splits_char("recent_colors=#é1234"));
    assert!(!AppConfig::text_splits_char("hotkey_name=aé123"));
    assert!(!AppConfig::text_splits_char("#recent_colors=aé123"));
}

#[test]
fn to_ini_string_writes_every_setting() {
    let mut c = AppConfig::default();
    c.recent_colors = vec![RgbColor::new(255, 87, 51), RgbColor::new(0, 0, 0)];
    assert_eq!(
        c.to_ini_string(),
        "[Settings]\nlanguage=tr\nhotkey_mod=1\nhotkey_vk=80\nhotkey_name=Alt + P\nrun_on_startup=false\nshow_tray_icon=true\nrecent_colors=#FF5733,#000000\n"
    );
}

#[test]
fn settings_read_back_after_writing() {
    let mut c = AppConfig::default();
    c.language = Language::English;
    c.hotkey_mod = 6;
    c.hotkey_vk = 0x7B;
    c.hotkey_name = "Ctrl + Shift + F12".to_string();
    c.run_on_startup = true;
    c.show_tray_icon = false;
    c.recent_colors = vec![RgbColor::new(1, 2, 3)];
    let back = AppConfig::parse(&c.to_ini_string());
    assert_eq!(back.language, c.language);
    assert_eq!(back.hotkey_mod, c.hotkey_mod);
    assert_eq!(back.hotkey_vk, c.hotkey_vk);
    assert_eq!(back.hotkey_name, c.hotkey_name);
    assert_eq!(back.run_on_startup, c.run_on_startup);
    assert_eq!(back.show_tray_icon, c.show_tray_icon);
    assert_eq!(back.recent_colors, c.recent_colors);
}

#[test]
fn add_recent_color_moves_it_to_the_front() {
    let mut c = AppConfig::default();
    c.add_recent_color(RgbColor::new(231, 76, 60));
    let mut expected = default_colors();
    let red = expected.remove(2);
    expected.insert(0, red);
    assert_eq!(c.recent_colors, expected);
}

#[test]
fn add_recent_color_keeps_ten() {
    let mut c = AppConfig::default();
    c.add_recent_color(RgbColor::new(1, 1, 1));
    assert_eq!(c.recent_colors.len(), 10);
    assert_eq!(c.recent_colors[0], RgbColor::new(1, 1, 1));
    assert_eq!(c.recent_colors[9], RgbColor::new(236, 240, 241));
}

#[test]
fn add_recent_color_twice_is_once() {
    let mut c = AppConfig::default();
    c.recent_colors = vec![RgbColor::new(5, 5, 5), RgbColor::new(6, 6, 6), RgbColor::new(5, 5, 5)];
    c.add_recent_color(RgbColor::new(6, 6, 6));
    let once = c.recent_colors.clone();
    c.add_recent_color(RgbColor::new(6, 6, 6));
    assert_eq!(c.recent_colors, once);
    assert_eq!(once, vec![RgbColor::new(6, 6, 6), RgbColor::new(5, 5, 5), RgbColor::new(5, 5, 5)]);
}

#[test]
fn add_recent_color_to_empty_list() {
    let mut c = AppConfig::default();
    c.recent_colors = Vec::new();
    c.add_recent_color(RgbColor::new(9, 9, 9));
    assert_eq!(c.recent_colors, vec![RgbColor::new(9, 9, 9)]);
}
