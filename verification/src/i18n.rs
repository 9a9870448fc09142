//! The language setting and the texts of the picker's windows in each
//! language.
use vstd::prelude::*;
use crate::text::str_chars;

verus! {

/// The languages that the picker speaks.
#[derive(Debug, Clone, Copy, PartialEq, Eq, Structural)]
pub enum Language {
    Turkish,
    English,
}

/// Whether `c` lower-cases to the lower-case ASCII letter `t`
/// (`A`..`Z` and the Kelvin sign are the only characters that lower-case to
/// ASCII letters other than themselves).
pub open spec fn lowers_to(c: char, t: char) -> bool {
    ||| c == t
    ||| ('A' <= c && c <= 'Z' && c as int + 32 == t as int)
    ||| (c == '\u{212a}' && t == 'k')
}

/// Whether `s.to_lowercase()` equals the lower-case ASCII word `t`.
pub open spec fn lowers_to_word(s: Seq<char>, t: Seq<char>) -> bool {
    s.len() == t.len() && forall|i: int| 0 <= i < s.len() ==> lowers_to(#[trigger] s[i], t[i])
}

/// The language that a setting names: `tr`, `turkish` and `turkce` in any
/// case name Turkish, anything else English.
pub open spec fn language_of_code(s: Seq<char>) -> Language {
    if lowers_to_word(s, seq!['t', 'r']) || lowers_to_word(s, seq!['t', 'u', 'r', 'k', 'i', 's', 'h'])
        || lowers_to_word(s, seq!['t', 'u', 'r', 'k', 'c', 'e']) {
        Language::Turkish
    } else {
        Language::English
    }
}

/// The two-letter code of a language.
pub open spec fn code_of(l: Language) -> Seq<char> {
    match l {
        Language::Turkish => seq!['t', 'r'],
        Language::English => seq!['e', 'n'],
    }
}

impl Language {
    /// Reads a language setting; see [`language_of_code`].
    pub fn from_code(code: &str) -> (l: Self)
        ensures
            l == language_of_code(code@),
    {
        let v = str_chars(code);
        assert(v@.subrange(0, v.len() as int) == v@);
        language_of_chars(&v, 0, v.len())
    }

    /// The two-letter code that [`Language::from_code`] reads back.
    pub fn to_code(&self) -> (s: &'static str)
        ensures
            s@ == code_of(*self),
    {
        match self {
            Language::Turkish => {
                proof {
                    reveal_strlit("tr");
                }
                "tr"
            },
            Language::English => {
                proof {
                    reveal_strlit("en");
                }
                "en"
            },
        }
    }
}

/// The language that `v[lo..hi]` names.
pub(crate) fn language_of_chars(v: &Vec<char>, lo: usize, hi: usize) -> (l: Language)
    requires
        lo <= hi <= v.len(),
    ensures
        l == language_of_code(v@.subrange(lo as int, hi as int)),
{
    proof {
        reveal_strlit("tr");
        reveal_strlit("turkish");
        reveal_strlit("turkce");
    }
    if lowers_to_str(v, lo, hi, "tr") || lowers_to_str(v, lo, hi, "turkish") || lowers_to_str(
        v,
        lo,
        hi,
        "turkce",
    ) {
        Language::Turkish
    } else {
        Language::English
    }
}

/// Whether `v[lo..hi]` lower-cases to the lower-case ASCII word `t`.
fn lowers_to_str(v: &Vec<char>, lo: usize, hi: usize, t: &str) -> (b: bool)
    requires
        lo <= hi <= v.len(),
    ensures
        b == lowers_to_word(v@.subrange(lo as int, hi as int), t@),
{
    let n = t.unicode_len();
    if hi - lo != n {
        return false;
    }
    let ghost s = v@.subrange(lo as int, hi as int);
    let mut i: usize = 0;
    while i < n
        invariant
            i <= n,
            n == t@.len(),
            hi - lo == n,
            lo <= hi <= v.len(),
            s == v@.subrange(lo as int, hi as int),
            forall|j: int| 0 <= j < i ==> lowers_to(#[trigger] s[j], t@[j]),
        decreases n - i,
    {
        let c = v[lo + i];
        let tc = t.get_char(i);
        assert(s[i as int] == c);
        let ok = c == tc || ('A' <= c && c <= 'Z' && (c as u32) + 32 == (tc as u32)) || (c
            == '\u{212a}' && tc == 'k');
        if !ok {
            return false;
        }
        i = i + 1;
    }
    true
}

/// The texts of the picker's windows.
pub struct Strings {
    pub app_title: &'static str,
    pub pick_color_btn: &'static str,
    pub copy_hex_btn: &'static str,
    pub copy_rgb_btn: &'static str,
    pub recent_colors: &'static str,
    pub copied_to_clipboard: &'static str,
    pub paint_hint: &'static str,
    // Paint guide window.
    pub paint_guide_title: &'static str,
    pub paint_guide_step1: &'static str,
    pub paint_guide_step2: &'static str,
    pub paint_guide_step3: &'static str,
    pub paint_guide_step4: &'static str,
    pub paint_guide_step5: &'static str,
    pub paint_guide_close: &'static str,
    // Settings window.
    pub settings_title: &'static str,
    pub lang_label: &'static str,
    pub startup_label: &'static str,
    pub tray_label: &'static str,
    pub hotkey_label: &'static str,
    pub save_btn: &'static str,
    pub cancel_btn: &'static str,
    pub exit_app_btn: &'static str,
    // Tray menu.
    pub tray_pick: &'static str,
    pub tray_show: &'static str,
    pub tray_settings: &'static str,
    pub tray_paint_guide: &'static str,
    pub tray_exit: &'static str,
}

/// Whether every text of `s` is the Turkish one.
pub open spec fn is_turkish_strings(s: Strings) -> bool {
    &&& s.app_title@ == "ETDPicker - Ekran Renk Seçici"@
    &&& s.pick_color_btn@ == "🎯 Renk Seç"@
    &&& s.copy_hex_btn@ == "HEX Kopyala"@
    &&& s.copy_rgb_btn@ == "RGB Kopyala (Paint)"@
    &&& s.recent_colors@ == "Son Seçilen Renkler"@
    &&& s.copied_to_clipboard@ == "✓ Panoya Kopyalandı!"@
    &&& s.paint_hint@ == "Paint'te 'Renkleri Düzenle'ye girip bu R, G, B değerlerini yazabilirsiniz."@
    &&& s.paint_guide_title@ == "Paint'te Renk Nasıl Kullanılır?"@
    &&& s.paint_guide_step1@ == "1. ETDPicker ile ekrandan istediğiniz rengi seçin."@
    &&& s.paint_guide_step2@ == "2. 'RGB Kopyala (Paint)' butonuna veya R, G, B değerlerine bakın."@
    &&& s.paint_guide_step3@ == "3. MS Paint uygulamasını açıp üst menüden 'Renkleri Düzenle'ye tıklayın."@
    &&& s.paint_guide_step4@ == "4. Sağ alttaki Kırmızı (R), Yeşil (G), Mavi (B) kutularına bu sayıları yazın."@
    &&& s.paint_guide_step5@ == "5. 'Özel Renklere Ekle' ardından 'Tamam' diyerek rengi hemen kullanın!"@
    &&& s.paint_guide_close@ == "Anladım, Kapat"@
    &&& s.settings_title@ == "ETDPicker - Ayarlar"@
    &&& s.lang_label@ == "Uygulama Dili:"@
    &&& s.startup_label@ == "Windows açıldığında otomatik başlat"@
    &&& s.tray_label@ == "Sistem tepsisinde simgeyi göster"@
    &&& s.hotkey_label@ == "Renk Seçme Kısayol Tuşu:"@
    &&& s.save_btn@ == "Kaydet"@
    &&& s.cancel_btn@ == "İptal"@
    &&& s.exit_app_btn@ == "Uygulamayı Tamamen Kapat"@
    &&& s.tray_pick@ == "🎯 Renk Seç"@
    &&& s.tray_show@ == "Pencereyi Göster"@
    &&& s.tray_settings@ == "⚙️ Ayarlar"@
    &&& s.tray_paint_guide@ == "🎨 Paint Rehberi"@
    &&& s.tray_exit@ == "Çıkış"@
}

/// Whether every text of `s` is the English one.
pub open spec fn is_english_strings(s: Strings) -> bool {
    &&& s.app_title@ == "ETDPicker - Screen Color Picker"@
    &&& s.pick_color_btn@ == "🎯 Pick Color"@
    &&& s.copy_hex_btn@ == "Copy HEX"@
    &&& s.copy_rgb_btn@ == "Copy RGB (Paint)"@
    &&& s.recent_colors@ == "Recent Colors"@
    &&& s.copied_to_clipboard@ == "✓ Copied to Clipboard!"@
    &&& s.paint_hint@ == "In Paint, open 'Edit Colors' and enter these R, G, B values."@
    &&& s.paint_guide_title@ == "How to Use Colors in MS Paint?"@
    &&& s.paint_guide_step1@ == "1. Pick any color from your screen using ETDPicker."@
    &&& s.paint_guide_step2@ == "2. Click 'Copy RGB (Paint)' or look at the R, G, B numbers."@
    &&& s.paint_guide_step3@ == "3. Open MS Paint and click 'Edit Colors' in the top toolbar."@
    &&& s.paint_guide_step4@ == "4. Type the numbers into the Red, Green, Blue boxes on the bottom right."@
    &&& s.paint_guide_step5@ == "5. Click 'Add to Custom Colors', then 'OK' and start drawing!"@
    &&& s.paint_guide_close@ == "Got It, Close"@
    &&& s.settings_title@ == "ETDPicker - Settings"@
    &&& s.lang_label@ == "Application Language:"@
    &&& s.startup_label@ == "Launch automatically on Windows startup"@
    &&& s.tray_label@ == "Show icon in system tray"@
    &&& s.hotkey_label@ == "Color Picker Hotkey:"@
    &&& s.save_btn@ == "Save"@
    &&& s.cancel_btn@ == "Cancel"@
    &&& s.exit_app_btn@ == "Exit Application Completely"@
    &&& s.tray_pick@ == "🎯 Pick Color"@
    &&& s.tray_show@ == "Show Window"@
    &&& s.tray_settings@ == "⚙️ Settings"@
    &&& s.tray_paint_guide@ == "🎨 Paint Guide"@
    &&& s.tray_exit@ == "Exit"@
}

/// The texts of the picker's windows in `lang`.
pub fn get_strings(lang: Language) -> (s: Strings)
    ensures
        lang == Language::Turkish ==> is_turkish_strings(s),
        lang == Language::English ==> is_english_strings(s),
{
    match lang {
        Language::Turkish => Strings {
            app_title: "ETDPicker - Ekran Renk Seçici",
            pick_color_btn: "🎯 Renk Seç",
            copy_hex_btn: "HEX Kopyala",
            copy_rgb_btn: "RGB Kopyala (Paint)",
            recent_colors: "Son Seçilen Renkler",
            copied_to_clipboard: "✓ Panoya Kopyalandı!",
            paint_hint: "Paint'te 'Renkleri Düzenle'ye girip bu R, G, B değerlerini yazabilirsiniz.",
            paint_guide_title: "Paint'te Renk Nasıl Kullanılır?",
            paint_guide_step1: "1. ETDPicker ile ekrandan istediğiniz rengi seçin.",
            paint_guide_step2: "2. 'RGB Kopyala (Paint)' butonuna veya R, G, B değerlerine bakın.",
            paint_guide_step3: "3. MS Paint uygulamasını açıp üst menüden 'Renkleri Düzenle'ye tıklayın.",
            paint_guide_step4: "4. Sağ alttaki Kırmızı (R), Yeşil (G), Mavi (B) kutularına bu sayıları yazın.",
            paint_guide_step5: "5. 'Özel Renklere Ekle' ardından 'Tamam' diyerek rengi hemen kullanın!",
            paint_guide_close: "Anladım, Kapat",
            settings_title: "ETDPicker - Ayarlar",
            lang_label: "Uygulama Dili:",
            startup_label: "Windows açıldığında otomatik başlat",
            tray_label: "Sistem tepsisinde simgeyi göster",
            hotkey_label: "Renk Seçme Kısayol Tuşu:",
            save_btn: "Kaydet",
            cancel_btn: "İptal",
            exit_app_btn: "Uygulamayı Tamamen Kapat",
            tray_pick: "🎯 Renk Seç",
            tray_show: "Pencereyi Göster",
            tray_settings: "⚙️ Ayarlar",
            tray_paint_guide: "🎨 Paint Rehberi",
            tray_exit: "Çıkış",
        },
        Language::English => Strings {
            app_title: "ETDPicker - Screen Color Picker",
            pick_color_btn: "🎯 Pick Color",
            copy_hex_btn: "Copy HEX",
            copy_rgb_btn: "Copy RGB (Paint)",
            recent_colors: "Recent Colors",
            copied_to_clipboard: "✓ Copied to Clipboard!",
            paint_hint: "In Paint, open 'Edit Colors' and enter these R, G, B values.",
            paint_guide_title: "How to Use Colors in MS Paint?",
            paint_guide_step1: "1. Pick any color from your screen using ETDPicker.",
            paint_guide_step2: "2. Click 'Copy RGB (Paint)' or look at the R, G, B numbers.",
            paint_guide_step3: "3. Open MS Paint and click 'Edit Colors' in the top toolbar.",
            paint_guide_step4: "4. Type the numbers into the Red, Green, Blue boxes on the bottom right.",
            paint_guide_step5: "5. Click 'Add to Custom Colors', then 'OK' and start drawing!",
            paint_guide_close: "Got It, Close",
            settings_title: "ETDPicker - Settings",
            lang_label: "Application Language:",
            startup_label: "Launch automatically on Windows startup",
            tray_label: "Show icon in system tray",
            hotkey_label: "Color Picker Hotkey:",
            save_btn: "Save",
            cancel_btn: "Cancel",
            exit_app_btn: "Exit Application Completely",
            tray_pick: "🎯 Pick Color",
            tray_show: "Show Window",
            tray_settings: "⚙️ Settings",
            tray_paint_guide: "🎨 Paint Guide",
            tray_exit: "Exit",
        },
    }
}

/// Law: the code of a language reads back as that language.
pub proof fn lemma_code_round_trip(l: Language)
    ensures
        language_of_code(code_of(l)) == l,
{
    let c = code_of(l);
    if l == Language::English {
        assert(!lowers_to(c[0], 't'));
    }
}

} // verus!
