//! The installer's languages and the texts of its windows.
use vstd::prelude::*;

verus! {

/// The languages that the installer speaks.
#[derive(Debug, Clone, Copy, PartialEq, Eq, Structural)]
pub enum Language {
    Turkish,
    English,
}

impl Language {
    /// The two-letter code of the language, as the picker's settings file
    /// names it.
    pub fn to_code(&self) -> (s: &'static str)
        ensures
            *self == Language::Turkish ==> s@ == seq!['t', 'r'],
            *self == Language::English ==> s@ == seq!['e', 'n'],
    {
        proof {
            reveal_strlit("tr");
            reveal_strlit("en");
        }
        match self {
            Language::Turkish => "tr",
            Language::English => "en",
        }
    }
}

/// The language that a stored language number stands for: 0 is Turkish,
/// any other number English.
pub open spec fn language_of_number(n: usize) -> Language {
    if n == 0 {
        Language::Turkish
    } else {
        Language::English
    }
}

/// The number under which the installer stores a language.
pub open spec fn number_of_language(l: Language) -> usize {
    match l {
        Language::Turkish => 0,
        Language::English => 1,
    }
}

/// The language of the installer's windows, from its stored number; see
/// [`language_of_number`].
pub fn get_active_lang(stored: usize) -> (l: Language)
    ensures
        l == language_of_number(stored),
{
    if stored == 0 {
        Language::Turkish
    } else {
        Language::English
    }
}

/// The number under which to store a language; see [`number_of_language`].
pub fn language_number(l: Language) -> (n: usize)
    ensures
        n == number_of_language(l),
{
    match l {
        Language::Turkish => 0,
        Language::English => 1,
    }
}

/// The language chosen in the language prompt's list: the first entry is
/// Turkish, any other selection English.
pub fn language_of_selection(sel: isize) -> (l: Language)
    ensures
        l == (if sel == 0 {
            Language::Turkish
        } else {
            Language::English
        }),
{
    if sel == 0 {
        Language::Turkish
    } else {
        Language::English
    }
}

/// Law: storing a language and reading the stored number back gives the
/// language.
pub proof fn lemma_language_number_round_trip(l: Language)
    ensures
        language_of_number(number_of_language(l)) == l,
{
}

/// The texts of the installer's windows.
pub struct InstallerStrings {
    pub wizard_title: &'static str,
    pub step1_title: &'static str,
    pub step1_desc: &'static str,
    pub license_agree: &'static str,
    pub step2_title: &'static str,
    pub step2_desc: &'static str,
    pub browse_btn: &'static str,
    pub step3_title: &'static str,
    pub step3_desc: &'static str,
    pub opt_desktop: &'static str,
    pub opt_startmenu: &'static str,
    pub opt_startup: &'static str,
    pub step4_title: &'static str,
    pub step4_desc: &'static str,
    pub step5_title: &'static str,
    pub step5_desc: &'static str,
    pub opt_launch: &'static str,
    pub next_btn: &'static str,
    pub back_btn: &'static str,
    pub install_btn: &'static str,
    pub finish_btn: &'static str,
    pub cancel_btn: &'static str,
    // Uninstall
    pub uninst_title: &'static str,
    pub uninst_prompt: &'static str,
    pub uninst_btn: &'static str,
    pub uninst_success: &'static str,
}

/// Whether every text of `s` is the Turkish one.
pub open spec fn is_turkish_installer_strings(s: InstallerStrings) -> bool {
    &&& s.wizard_title@ == "ETDPicker Kurulum Sihirbazı"@
    &&& s.step1_title@ == "Hoş Geldiniz ve Yasal Bilgilendirme"@
    &&& s.step1_desc@ == "ETDPicker kurulumuna hoş geldiniz.\n\n• Kod tabanı MIT Lisansı ile sunulmaktadır.\n• ETDPicker adı ve logosu Emir Tuğra Dağ'ın fikri mülkiyetidir.\n• Program 'OLDUĞU GİBİ' sağlanmakta olup, kullanımından doğacak her türlü durumdan kullanıcının kendisi mesuldür."@
    &&& s.license_agree@ == "Lisans, Fikri Mülkiyet ve Sorumluluk Reddi şartlarını kabul ediyorum."@
    &&& s.step2_title@ == "Hedef Kurulum Klasörü"@
    &&& s.step2_desc@ == "ETDPicker aşağıdaki klasöre kurulacak. Farklı bir konuma kurmak için 'Gözat' butonuna tıklayabilirsiniz:"@
    &&& s.browse_btn@ == "Gözat..."@
    &&& s.step3_title@ == "Ek Görevler ve Kısayollar"@
    &&& s.step3_desc@ == "Kurulum sırasında yapılmasını istediğiniz ek seçenekleri işaretleyin:"@
    &&& s.opt_desktop@ == "Masaüstü kısayolu oluştur"@
    &&& s.opt_startmenu@ == "Başlat Menüsü kısayolu oluştur"@
    &&& s.opt_startup@ == "Windows açıldığında ETDPicker'ı otomatik başlat"@
    &&& s.step4_title@ == "Kuruluyor..."@
    &&& s.step4_desc@ == "ETDPicker dosyaları kopyalanıyor ve sistem kayıtları yapılıyor..."@
    &&& s.step5_title@ == "Kurulum Tamamlandı!"@
    &&& s.step5_desc@ == "ETDPicker bilgisayarınıza başarıyla kuruldu."@
    &&& s.opt_launch@ == "ETDPicker uygulamasını hemen başlat"@
    &&& s.next_btn@ == "İleri >"@
    &&& s.back_btn@ == "< Geri"@
    &&& s.install_btn@ == "Kur"@
    &&& s.finish_btn@ == "Bitir"@
    &&& s.cancel_btn@ == "İptal"@
    &&& s.uninst_title@ == "ETDPicker Kaldırma Sihirbazı"@
    &&& s.uninst_prompt@ == "ETDPicker uygulamasını ve tüm bileşenlerini bilgisayarınızdan kaldırmak istediğinize emin misiniz?"@
    &&& s.uninst_btn@ == "Kaldır"@
    &&& s.uninst_success@ == "ETDPicker bilgisayarınızdan başarıyla kaldırıldı."@
}

/// Whether every text of `s` is the English one.
pub open spec fn is_english_installer_strings(s: InstallerStrings) -> bool {
    &&& s.wizard_title@ == "ETDPicker Setup Wizard"@
    &&& s.step1_title@ == "Welcome & Legal Information"@
    &&& s.step1_desc@ == "Welcome to ETDPicker Setup.\n\n• The codebase is licensed under the MIT License.\n• ETDPicker name and logo are the intellectual property of Emir Tuğra Dağ.\n• The software is provided 'AS IS', and users bear all responsibility for its use."@
    &&& s.license_agree@ == "I accept the License, Intellectual Property, and Disclaimer terms."@
    &&& s.step2_title@ == "Destination Directory"@
    &&& s.step2_desc@ == "ETDPicker will be installed in the following folder. To choose a different location, click 'Browse':"@
    &&& s.browse_btn@ == "Browse..."@
    &&& s.step3_title@ == "Additional Tasks & Shortcuts"@
    &&& s.step3_desc@ == "Select the additional shortcuts you would like Setup to create:"@
    &&& s.opt_desktop@ == "Create a desktop shortcut"@
    &&& s.opt_startmenu@ == "Create a Start Menu shortcut"@
    &&& s.opt_startup@ == "Launch ETDPicker automatically on Windows startup"@
    &&& s.step4_title@ == "Installing..."@
    &&& s.step4_desc@ == "Copying ETDPicker files and registering system entries..."@
    &&& s.step5_title@ == "Installation Completed!"@
    &&& s.step5_desc@ == "ETDPicker has been successfully installed on your computer."@
    &&& s.opt_launch@ == "Launch ETDPicker now"@
    &&& s.next_btn@ == "Next >"@
    &&& s.back_btn@ == "< Back"@
    &&& s.install_btn@ == "Install"@
    &&& s.finish_btn@ == "Finish"@
    &&& s.cancel_btn@ == "Cancel"@
    &&& s.uninst_title@ == "ETDPicker Uninstall Wizard"@
    &&& s.uninst_prompt@ == "Are you sure you want to completely remove ETDPicker and all of its components?"@
    &&& s.uninst_btn@ == "Uninstall"@
    &&& s.uninst_success@ == "ETDPicker was successfully removed from your computer."@
}

/// The texts of the installer's windows in `lang`.
pub fn get_installer_strings(lang: Language) -> (s: InstallerStrings)
    ensures
        lang == Language::Turkish ==> is_turkish_installer_strings(s),
        lang == Language::English ==> is_english_installer_strings(s),
{
    match lang {
        Language::Turkish => InstallerStrings {
            wizard_title: "ETDPicker Kurulum Sihirbazı",
            step1_title: "Hoş Geldiniz ve Yasal Bilgilendirme",
            step1_desc: "ETDPicker kurulumuna hoş geldiniz.\n\n• Kod tabanı MIT Lisansı ile sunulmaktadır.\n• ETDPicker adı ve logosu Emir Tuğra Dağ'ın fikri mülkiyetidir.\n• Program 'OLDUĞU GİBİ' sağlanmakta olup, kullanımından doğacak her türlü durumdan kullanıcının kendisi mesuldür.",
            license_agree: "Lisans, Fikri Mülkiyet ve Sorumluluk Reddi şartlarını kabul ediyorum.",
            step2_title: "Hedef Kurulum Klasörü",
            step2_desc: "ETDPicker aşağıdaki klasöre kurulacak. Farklı bir konuma kurmak için 'Gözat' butonuna tıklayabilirsiniz:",
            browse_btn: "Gözat...",
            step3_title: "Ek Görevler ve Kısayollar",
            step3_desc: "Kurulum sırasında yapılmasını istediğiniz ek seçenekleri işaretleyin:",
            opt_desktop: "Masaüstü kısayolu oluştur",
            opt_startmenu: "Başlat Menüsü kısayolu oluştur",
            opt_startup: "Windows açıldığında ETDPicker'ı otomatik başlat",
            step4_title: "Kuruluyor...",
            step4_desc: "ETDPicker dosyaları kopyalanıyor ve sistem kayıtları yapılıyor...",
            step5_title: "Kurulum Tamamlandı!",
            step5_desc: "ETDPicker bilgisayarınıza başarıyla kuruldu.",
            opt_launch: "ETDPicker uygulamasını hemen başlat",
            next_btn: "İleri >",
            back_btn: "< Geri",
            install_btn: "Kur",
            finish_btn: "Bitir",
            cancel_btn: "İptal",
            uninst_title: "ETDPicker Kaldırma Sihirbazı",
            uninst_prompt: "ETDPicker uygulamasını ve tüm bileşenlerini bilgisayarınızdan kaldırmak istediğinize emin misiniz?",
            uninst_btn: "Kaldır",
            uninst_success: "ETDPicker bilgisayarınızdan başarıyla kaldırıldı.",
        },
        Language::English => InstallerStrings {
            wizard_title: "ETDPicker Setup Wizard",
            step1_title: "Welcome & Legal Information",
            step1_desc: "Welcome to ETDPicker Setup.\n\n• The codebase is licensed under the MIT License.\n• ETDPicker name and logo are the intellectual property of Emir Tuğra Dağ.\n• The software is provided 'AS IS', and users bear all responsibility for its use.",
            license_agree: "I accept the License, Intellectual Property, and Disclaimer terms.",
            step2_title: "Destination Directory",
            step2_desc: "ETDPicker will be installed in the following folder. To choose a different location, click 'Browse':",
            browse_btn: "Browse...",
            step3_title: "Additional Tasks & Shortcuts",
            step3_desc: "Select the additional shortcuts you would like Setup to create:",
            opt_desktop: "Create a desktop shortcut",
            opt_startmenu: "Create a Start Menu shortcut",
            opt_startup: "Launch ETDPicker automatically on Windows startup",
            step4_title: "Installing...",
            step4_desc: "Copying ETDPicker files and registering system entries...",
            step5_title: "Installation Completed!",
            step5_desc: "ETDPicker has been successfully installed on your computer.",
            opt_launch: "Launch ETDPicker now",
            next_btn: "Next >",
            back_btn: "< Back",
            install_btn: "Install",
            finish_btn: "Finish",
            cancel_btn: "Cancel",
            uninst_title: "ETDPicker Uninstall Wizard",
            uninst_prompt: "Are you sure you want to completely remove ETDPicker and all of its components?",
            uninst_btn: "Uninstall",
            uninst_success: "ETDPicker was successfully removed from your computer.",
        },
    }
}

} // verus!
