use etd_picker::i18n::{get_strings, Language};

#[test]
fn from_code_reads_turkish_names_in_any_case() {
    assert_eq!(Language::from_code("tr"), Language::Turkish);
    assert_eq!(Language::from_code("TR"), Language::Turkish);
    assert_eq!(Language::from_code("Turkish"), Language::Turkish);
    assert_eq!(Language::from_code("TURKCE"), Language::Turkish);
    assert_eq!(Language::from_code("tur\u{212a}ish"), Language::Turkish);
}

#[test]
fn from_code_falls_back_to_english() {
    assert_eq!(Language::from_code("en"), Language::English);
    assert_eq!(Language::from_code(""), Language::English);
    assert_eq!(Language::from_code("türkçe"), Language::English);
    assert_eq!(Language::from_code(" tr"), Language::English);
    assert_eq!(Language::from_code("TURKİSH"), Language::English);
}

#[test]
fn to_code_reads_back() {
    assert_eq!(Language::Turkish.to_code(), "tr");
    assert_eq!(Language::English.to_code(), "en");
    for l in [Language::Turkish, Language::English] {
        assert_eq!(Language::from_code(l.to_code()), l);
    }
}

#[test]
fn strings_follow_the_language() {
    let tr = get_strings(Language::Turkish);
    let en = get_strings(Language::English);
    assert_eq!(tr.app_title, "ETDPicker - Ekran Renk Seçici");
    assert_eq!(en.app_title, "ETDPicker - Screen Color Picker");
    assert_eq!(tr.copy_hex_btn, "HEX Kopyala");
    assert_eq!(en.copy_rgb_btn, "Copy RGB (Paint)");
    assert_eq!(en.copied_to_clipboard, "✓ Copied to Clipboard!");
    assert_eq!(tr.tray_exit, "Çıkış");
    assert_eq!(en.paint_guide_step5, "5. Click 'Add to Custom Colors', then 'OK' and start drawing!");
    assert_eq!(tr.settings_title, "ETDPicker - Ayarlar");
}
