use etd_picker::color::RgbColor;

#[test]
fn new_keeps_channels() {
    let c = RgbColor::new(1, 2, 3);
    assert_eq!((c.r, c.g, c.b), (1, 2, 3));
}

#[test]
fn to_hex_is_upper_case_and_padded() {
    assert_eq!(RgbColor::new(255, 87, 51).to_hex(), "#FF5733");
    assert_eq!(RgbColor::new(0, 10, 171).to_hex(), "#000AAB");
    assert_eq!(RgbColor::new(52, 152, 219).to_hex(), "#3498DB");
}

#[test]
fn to_rgb_string_matches_paint_format() {
    assert_eq!(RgbColor::new(255, 87, 51).to_rgb_string(), "255, 87, 51");
    assert_eq!(RgbColor::new(0, 0, 0).to_rgb_string(), "0, 0, 0");
}

#[test]
fn to_css_rgb_wraps_the_triplet() {
    assert_eq!(RgbColor::new(243, 156, 18).to_css_rgb(), "rgb(243, 156, 18)");
}

#[test]
fn from_hex_reads_both_cases_and_trims() {
    assert_eq!(RgbColor::from_hex("#FF5733"), Some(RgbColor::new(255, 87, 51)));
    assert_eq!(RgbColor::from_hex("ff5733"), Some(RgbColor::new(255, 87, 51)));
    assert_eq!(RgbColor::from_hex("  #3498db \n"), Some(RgbColor::new(52, 152, 219)));
    assert_eq!(RgbColor::from_hex("###000000"), Some(RgbColor::new(0, 0, 0)));
}

#[test]
fn from_hex_takes_a_plus_sign_in_a_pair() {
    assert_eq!(RgbColor::from_hex("#+F+F+F"), Some(RgbColor::new(15, 15, 15)));
}

#[test]
fn from_hex_refuses_other_texts() {
    assert_eq!(RgbColor::from_hex(""), None);
    assert_eq!(RgbColor::from_hex("#FFF"), None);
    assert_eq!(RgbColor::from_hex("#FF57331"), None);
    assert_eq!(RgbColor::from_hex("#GG5733"), None);
    assert_eq!(RgbColor::from_hex("#-F5733"), None);
    assert_eq!(RgbColor::from_hex("#FF 733"), None);
    assert_eq!(RgbColor::from_hex("#é1234"), None);
}

#[test]
fn hex_text_splits_char_marks_the_panicking_texts() {
    assert!(RgbColor::hex_text_splits_char("aé123"));
    assert!(RgbColor::hex_text_splits_char("€123"));
    assert!(RgbColor::hex_text_splits_char("AB1é2"));
    assert!(RgbColor::hex_text_splits_char("Gé123"));
    assert!(!RgbColor::hex_text_splits_char("ABé12"));
    assert!(!RgbColor::hex_text_splits_char("é1234"));
    assert!(!RgbColor::hex_text_splits_char("#FF5733"));
    assert!(!RgbColor::hex_text_splits_char("GGé12"));
    assert_eq!(RgbColor::from_hex("ABé12"), None);
}

#[test]
fn hex_round_trip_on_samples() {
    for &(r, g, b) in &[(0u8, 0u8, 0u8), (255, 255, 255), (18, 52, 86), (171, 205, 239)] {
        let c = RgbColor::new(r, g, b);
        assert_eq!(RgbColor::from_hex(&c.to_hex()), Some(c));
    }
}

#[test]
fn colorref_packs_red_low() {
    let c = RgbColor::new(0x11, 0x22, 0x33);
    assert_eq!(c.to_colorref(), 0x0033_2211);
    assert_eq!(RgbColor::from_colorref(0xFF33_2211), c);
    assert_eq!(RgbColor::from_colorref(c.to_colorref()), c);
}
