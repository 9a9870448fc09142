use etd_picker::config::AppConfig;
use etd_picker::color::RgbColor;
use etd_picker::installer::i18n::{get_active_lang, get_installer_strings, language_number, language_of_selection, Language};
use etd_picker::installer::setup::{
    cleanup_command, escape_for_powershell, initial_config, launched_as_uninstaller, quote_path,
    recorded_install_dir, shortcut_script, startup_command, uninstall_number_entries,
    uninstall_text_entries,
};
use etd_picker::installer::wizard::{
    control_visibility, header_texts, next_label_text, page_body, window_title, wizard_command,
    NextLabel, PageBody, WizardAction, WizardState, ID_AGREE, ID_BACK, ID_CANCEL, ID_NEXT,
};

fn st(step: usize) -> WizardState {
    WizardState { step, is_uninstaller: false }
}

#[test]
fn languages_are_stored_as_numbers() {
    assert_eq!(get_active_lang(0), Language::Turkish);
    assert_eq!(get_active_lang(1), Language::English);
    assert_eq!(get_active_lang(7), Language::English);
    assert_eq!(get_active_lang(language_number(Language::English)), Language::English);
    assert_eq!(language_of_selection(0), Language::Turkish);
    assert_eq!(language_of_selection(-1), Language::English);
    assert_eq!(Language::Turkish.to_code(), "tr");
}

#[test]
fn installer_strings_follow_the_language() {
    assert_eq!(get_installer_strings(Language::Turkish).install_btn, "Kur");
    assert_eq!(get_installer_strings(Language::English).uninst_btn, "Uninstall");
    assert_eq!(get_installer_strings(Language::English).next_btn, "Next >");
}

#[test]
fn next_walks_through_the_pages() {
    assert_eq!(wizard_command(st(1), ID_NEXT, false), (st(2), WizardAction::Refresh));
    assert_eq!(wizard_command(st(2), ID_NEXT, false), (st(3), WizardAction::Refresh));
    assert_eq!(wizard_command(st(3), ID_NEXT, false), (st(5), WizardAction::Install));
    assert_eq!(wizard_command(st(4), ID_NEXT, false), (st(4), WizardAction::Refresh));
    assert_eq!(wizard_command(st(5), ID_NEXT, true), (st(5), WizardAction::Finish { launch: true }));
    assert_eq!(wizard_command(st(5), ID_NEXT, false), (st(5), WizardAction::Finish { launch: false }));
}

#[test]
fn back_cancel_and_agree() {
    assert_eq!(wizard_command(st(1), ID_BACK, false), (st(1), WizardAction::Nothing));
    assert_eq!(wizard_command(st(3), ID_BACK, false), (st(2), WizardAction::Refresh));
    assert_eq!(wizard_command(st(2), ID_CANCEL, false), (st(2), WizardAction::Close));
    assert_eq!(wizard_command(st(1), ID_AGREE, false), (st(1), WizardAction::UpdateControls));
    assert_eq!(wizard_command(st(1), 999, false), (st(1), WizardAction::Nothing));
    let (s, _) = wizard_command(st(2), ID_NEXT, false);
    assert_eq!(wizard_command(s, ID_BACK, false).0, st(2));
}

#[test]
fn uninstaller_next_uninstalls() {
    let u = WizardState { step: 1, is_uninstaller: true };
    assert_eq!(wizard_command(u, ID_NEXT, true), (u, WizardAction::Uninstall));
}

#[test]
fn controls_of_each_page() {
    let v = control_visibility(st(1), false);
    assert!(v.agree && !v.directory && !v.desktop);
    assert_eq!(v.next_enabled, Some(false));
    assert_eq!(v.back_enabled, Some(false));
    assert_eq!(control_visibility(st(1), true).next_enabled, Some(true));
    let v = control_visibility(st(3), false);
    assert!(v.desktop && v.start_menu && v.startup && !v.agree);
    assert_eq!(v.next_label, NextLabel::Install);
    assert_eq!(v.back_enabled, Some(true));
    let v = control_visibility(st(5), false);
    assert!(v.launch);
    assert_eq!(v.next_label, NextLabel::Finish);
    assert_eq!(v.back_enabled, Some(false));
    let u = control_visibility(WizardState { step: 1, is_uninstaller: true }, true);
    assert!(!u.agree && !u.launch);
    assert_eq!(u.back_shown, Some(false));
    assert_eq!(u.next_enabled, None);
    assert_eq!(u.next_label, NextLabel::Uninstall);
}

#[test]
fn page_texts() {
    let s = get_installer_strings(Language::English);
    assert_eq!(next_label_text(&s, NextLabel::Finish), "Finish");
    assert_eq!(window_title(&s, true), "ETDPicker Uninstall Wizard");
    assert_eq!(window_title(&s, false), "ETDPicker Setup Wizard");
    assert_eq!(header_texts(&s, st(1)), ("Welcome & Legal Information", "ETDPicker v1.0.0"));
    assert_eq!(header_texts(&s, st(4)).0, "Installing...");
    assert_eq!(header_texts(&s, st(9)), ("ETDPicker Setup Wizard", ""));
    assert!(matches!(page_body(&s, st(4)), PageBody::Progress));
    assert!(matches!(page_body(&s, st(0)), PageBody::Empty));
    assert!(matches!(page_body(&s, st(5)), PageBody::Text("ETDPicker has been successfully installed on your computer.")));
}

#[test]
fn commands_quote_the_paths() {
    assert_eq!(startup_command("C:\\Apps\\ETDPicker.exe"), "\"C:\\Apps\\ETDPicker.exe\" --silent");
    assert_eq!(quote_path("a b"), "\"a b\"");
    assert_eq!(
        cleanup_command("C:\\Apps"),
        "timeout /t 1 /nobreak > NUL & rmdir /s /q \"C:\\Apps\""
    );
}

#[test]
fn powershell_quotes_are_doubled() {
    assert_eq!(escape_for_powershell("O'Brien's"), "O''Brien''s");
    assert_eq!(escape_for_powershell(""), "");
    assert_eq!(
        shortcut_script("C:\\D\\x.lnk", "C:\\P\\a.exe", "C:\\P", "C:\\P\\i.ico", "It's"),
        "$WshShell = New-Object -ComObject WScript.Shell; $Shortcut = $WshShell.CreateShortcut('C:\\D\\x.lnk'); $Shortcut.TargetPath = 'C:\\P\\a.exe'; $Shortcut.WorkingDirectory = 'C:\\P'; $Shortcut.IconLocation = 'C:\\P\\i.ico, 0'; $Shortcut.Description = 'It''s'; $Shortcut.Save()"
    );
}

#[test]
fn uninstall_entry_values() {
    let v = uninstall_text_entries("C:\\P\\app_icon.ico", "C:\\P\\Uninstall.exe", "C:\\P");
    assert_eq!(v.len(), 8);
    assert_eq!(v[0], ("DisplayName", "ETDPicker".to_string()));
    assert_eq!(v[4], ("UninstallString", "\"C:\\P\\Uninstall.exe\"".to_string()));
    assert_eq!(v[5], ("QuietUninstallString", "\"C:\\P\\Uninstall.exe\" --silent".to_string()));
    assert_eq!(v[6], ("InstallLocation", "C:\\P".to_string()));
    let n = uninstall_number_entries();
    assert_eq!(n, vec![("NoModify", 1), ("NoRepair", 1), ("EstimatedSize", 4096)]);
}

#[test]
fn uninstaller_is_told_by_flag_or_name() {
    assert!(launched_as_uninstaller("setup.exe", true));
    assert!(launched_as_uninstaller("uninstall.exe", false));
    assert!(launched_as_uninstaller("etd-uninstaller.exe", false));
    assert!(!launched_as_uninstaller("etd-installer.exe", false));
    assert!(!launched_as_uninstaller("", false));
}

#[test]
fn recorded_install_dir_is_trimmed() {
    assert_eq!(recorded_install_dir("  C:\\P  "), Some("C:\\P".to_string()));
    assert_eq!(recorded_install_dir("   "), None);
    assert_eq!(recorded_install_dir(""), None);
}

#[test]
fn first_settings_file_reads_as_expected() {
    let text = initial_config(Language::English);
    assert_eq!(text, "[Settings]\nlanguage=en\nhotkey_mod=1\nhotkey_vk=80\nhotkey_name=Alt + P\nrun_on_startup=false\nshow_tray_icon=true\nrecent_colors=#3498db,#2ecc71,#e74c3c,#f1c40f,#9b59b6\n");
    let c = AppConfig::parse(&text);
    assert_eq!(c.language, etd_picker::i18n::Language::English);
    assert_eq!(c.hotkey_mod, 1);
    assert_eq!(c.hotkey_vk, 80);
    assert_eq!(c.hotkey_name, "Alt + P");
    assert_eq!(
        c.recent_colors,
        vec![
            RgbColor::new(52, 152, 219),
            RgbColor::new(46, 204, 113),
            RgbColor::new(231, 76, 60),
            RgbColor::new(241, 196, 15),
            RgbColor::new(155, 89, 182),
        ]
    );
}
