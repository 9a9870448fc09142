//! What the installer writes and runs: the uninstall entry's values, the
//! shortcut script, the clean-up command, the first settings file, and how
//! it tells that it runs as the uninstaller.
use vstd::prelude::*;
use crate::installer::i18n::Language;
use crate::text::{trim, str_chars, trim_range};

verus! {

/// `"path"`.
pub open spec fn quoted(path: Seq<char>) -> Seq<char> {
    seq!['"'] + path + seq!['"']
}

/// The command that starts the picker hidden: the quoted program path and
/// `--silent`.
pub open spec fn silent_command(exe: Seq<char>) -> Seq<char> {
    quoted(exe) + " --silent"@
}

/// Builds `"path"`.
pub fn quote_path(path: &str) -> (s: String)
    ensures
        s@ == quoted(path@),
{
    proof {
        reveal_strlit("\"");
    }
    let mut s = "\"".to_owned();
    s.append(path);
    s.append("\"");
    s
}

/// Builds the command that starts the program at `exe` hidden; see
/// [`silent_command`].
pub fn startup_command(exe: &str) -> (s: String)
    ensures
        s@ == silent_command(exe@),
{
    let mut s = quote_path(exe);
    s.append(" --silent");
    s
}

/// The command that removes the install folder after the uninstaller has
/// quit: wait a second, then delete the folder and all it holds.
pub open spec fn cleanup_command_text(dir: Seq<char>) -> Seq<char> {
    "timeout /t 1 /nobreak > NUL & rmdir /s /q "@ + quoted(dir)
}

/// Builds the clean-up command for `dir`; see [`cleanup_command_text`].
pub fn cleanup_command(dir: &str) -> (s: String)
    ensures
        s@ == cleanup_command_text(dir@),
{
    let mut s = "timeout /t 1 /nobreak > NUL & rmdir /s /q ".to_owned();
    let q = quote_path(dir);
    s.append(q.as_str());
    s
}

/// One character inside a PowerShell single-quoted string: `'` doubled.
pub open spec fn ps_escape_char(c: char) -> Seq<char> {
    if c == '\'' {
        seq!['\'', '\'']
    } else {
        seq![c]
    }
}

/// `s` as the body of a PowerShell single-quoted string: each `'` doubled.
pub open spec fn ps_escape(s: Seq<char>) -> Seq<char>
    decreases s.len(),
{
    if s.len() == 0 {
        Seq::empty()
    } else {
        ps_escape_char(s[0]) + ps_escape(s.drop_first())
    }
}

/// The text that the body of a PowerShell single-quoted string stands for:
/// `''` stands for `'`.
pub open spec fn ps_unescape(t: Seq<char>) -> Seq<char>
    decreases t.len(),
{
    if t.len() == 0 {
        Seq::empty()
    } else if t.len() >= 2 && t[0] == '\'' && t[1] == '\'' {
        seq!['\''] + ps_unescape(t.skip(2))
    } else {
        seq![t[0]] + ps_unescape(t.drop_first())
    }
}

proof fn lemma_ps_escape_push(s: Seq<char>, c: char)
    ensures
        ps_escape(s.push(c)) == ps_escape(s) + ps_escape_char(c),
    decreases s.len(),
{
    let t = s.push(c);
    if s.len() == 0 {
        assert(t.drop_first().len() == 0);
        assert(ps_escape(t) == ps_escape_char(c) + ps_escape(t.drop_first()));
        assert(ps_escape(t) =~= ps_escape(s) + ps_escape_char(c));
    } else {
        lemma_ps_escape_push(s.drop_first(), c);
        assert(t.drop_first() == s.drop_first().push(c));
        assert(t[0] == s[0]);
        assert(ps_escape(t) =~= ps_escape(s) + ps_escape_char(c));
    }
}

/// Builds `s` as the body of a PowerShell single-quoted string; see
/// [`ps_escape`].
pub fn escape_for_powershell(s: &str) -> (r: String)
    ensures
        r@ == ps_escape(s@),
{
    proof {
        reveal_strlit("''");
    }
    let n = s.unicode_len();
    let mut r = String::new();
    let mut i: usize = 0;
    while i < n
        invariant
            i <= n == s@.len(),
            r@ == ps_escape(s@.take(i as int)),
        decreases n - i,
    {
        let c = s.get_char(i);
        if c == '\'' {
            r.append("''");
        } else {
            r.append(s.substring_char(i, i + 1));
        }
        proof {
            reveal_strlit("''");
            lemma_ps_escape_push(s@.take(i as int), c);
            assert(s@.take(i + 1) == s@.take(i as int).push(c));
            assert(s@.subrange(i as int, i + 1) == seq![c]);
        }
        i = i + 1;
    }
    assert(s@.take(n as int) == s@);
    r
}

/// Law: the escaped text, read as the body of a single-quoted PowerShell
/// string, stands for the text itself.
pub proof fn lemma_ps_escape_round_trip(s: Seq<char>)
    ensures
        ps_unescape(ps_escape(s)) == s,
    decreases s.len(),
{
    if s.len() > 0 {
        lemma_ps_escape_round_trip(s.drop_first());
        let e = ps_escape(s);
        let rest = ps_escape(s.drop_first());
        if s[0] == '\'' {
            assert(e == seq!['\'', '\''] + rest);
            assert(e.skip(2) == rest);
        } else {
            assert(e == seq![s[0]] + rest);
            assert(e.drop_first() == rest);
        }
        assert(s == seq![s[0]] + s.drop_first());
    }
}

/// The PowerShell script that makes a shortcut at `link` to `target`,
/// working in `work_dir`, with the icon at `icon` and the tooltip
/// `description`; every value is put in single quotes, escaped.
pub open spec fn shortcut_script_text(
    link: Seq<char>,
    target: Seq<char>,
    work_dir: Seq<char>,
    icon: Seq<char>,
    description: Seq<char>,
) -> Seq<char> {
    "$WshShell = New-Object -ComObject WScript.Shell; $Shortcut = $WshShell.CreateShortcut('"@
        + ps_escape(link) + "'); $Shortcut.TargetPath = '"@ + ps_escape(target)
        + "'; $Shortcut.WorkingDirectory = '"@ + ps_escape(work_dir)
        + "'; $Shortcut.IconLocation = '"@ + ps_escape(icon) + ", 0'; $Shortcut.Description = '"@
        + ps_escape(description) + "'; $Shortcut.Save()"@
}

/// Builds the shortcut script; see [`shortcut_script_text`].
pub fn shortcut_script(
    link: &str,
    target: &str,
    work_dir: &str,
    icon: &str,
    description: &str,
) -> (s: String)
    ensures
        s@ == shortcut_script_text(link@, target@, work_dir@, icon@, description@),
{
    let mut s = "$WshShell = New-Object -ComObject WScript.Shell; $Shortcut = $WshShell.CreateShortcut('".to_owned();
    let e = escape_for_powershell(link);
    s.append(e.as_str());
    s.append("'); $Shortcut.TargetPath = '");
    let e = escape_for_powershell(target);
    s.append(e.as_str());
    s.append("'; $Shortcut.WorkingDirectory = '");
    let e = escape_for_powershell(work_dir);
    s.append(e.as_str());
    s.append("'; $Shortcut.IconLocation = '");
    let e = escape_for_powershell(icon);
    s.append(e.as_str());
    s.append(", 0'; $Shortcut.Description = '");
    let e = escape_for_powershell(description);
    s.append(e.as_str());
    s.append("'; $Shortcut.Save()");
    s
}

/// The text values of the uninstall entry, by name, for a program installed
/// in `dir` with its icon at `icon` and its uninstaller at `uninstaller`.
pub open spec fn uninstall_text_values(
    icon: Seq<char>,
    uninstaller: Seq<char>,
    dir: Seq<char>,
) -> Seq<(Seq<char>, Seq<char>)> {
    seq![
        ("DisplayName"@, "ETDPicker"@),
        ("DisplayVersion"@, "1.0.0"@),
        ("Publisher"@, "Emir Tuğra Dağ"@),
        ("DisplayIcon"@, icon),
        ("UninstallString"@, quoted(uninstaller)),
        ("QuietUninstallString"@, silent_command(uninstaller)),
        ("InstallLocation"@, dir),
        ("Comments"@, "ETDPicker Screen Color Picker by Emir Tuğra Dağ"@),
    ]
}

/// The text values of the uninstall entry; see [`uninstall_text_values`].
pub fn uninstall_text_entries(icon: &str, uninstaller: &str, dir: &str) -> (v: Vec<(&'static str, String)>)
    ensures
        v.len() == 8,
        forall|i: int| 0 <= i < 8 ==> (#[trigger] v@[i].0@, v@[i].1@) == uninstall_text_values(
            icon@,
            uninstaller@,
            dir@,
        )[i],
{
    let mut v: Vec<(&'static str, String)> = Vec::new();
    v.push(("DisplayName", "ETDPicker".to_owned()));
    v.push(("DisplayVersion", "1.0.0".to_owned()));
    v.push(("Publisher", "Emir Tuğra Dağ".to_owned()));
    v.push(("DisplayIcon", icon.to_owned()));
    v.push(("UninstallString", quote_path(uninstaller)));
    v.push(("QuietUninstallString", startup_command(uninstaller)));
    v.push(("InstallLocation", dir.to_owned()));
    v.push(("Comments", "ETDPicker Screen Color Picker by Emir Tuğra Dağ".to_owned()));
    v
}

/// The number values of the uninstall entry: it can be neither changed nor
/// repaired, and takes about 4 MB.
pub fn uninstall_number_entries() -> (v: Vec<(&'static str, u32)>)
    ensures
        v.len() == 3,
        v@[0].0@ == "NoModify"@ && v@[0].1 == 1,
        v@[1].0@ == "NoRepair"@ && v@[1].1 == 1,
        v@[2].0@ == "EstimatedSize"@ && v@[2].1 == 4096,
{
    let mut v: Vec<(&'static str, u32)> = Vec::new();
    v.push(("NoModify", 1));
    v.push(("NoRepair", 1));
    v.push(("EstimatedSize", 4096));
    v
}

/// Whether `t` occurs in `s`.
pub open spec fn has_infix(s: Seq<char>, t: Seq<char>) -> bool {
    exists|i: int| 0 <= i <= s.len() - t.len() && #[trigger] s.subrange(i, i + t.len()) == t
}

/// Whether the program runs as the uninstaller: it was given the uninstall
/// flag, or its lower-cased file name holds `uninstall`.
pub fn launched_as_uninstaller(exe_name_lower: &str, has_flag: bool) -> (b: bool)
    ensures
        b == (has_flag || has_infix(exe_name_lower@, "uninstall"@)),
{
    if has_flag {
        return true;
    }
    let v = str_chars(exe_name_lower);
    let pat = str_chars("uninstall");
    let n = v.len();
    let m = pat.len();
    if m > n {
        proof {
            assert forall|i: int| 0 <= i <= n - m implies #[trigger] v@.subrange(i, i + m) != pat@ by {}
        }
        return false;
    }
    let mut i: usize = 0;
    while i <= n - m
        invariant
            m <= n == v.len(),
            m == pat.len(),
            pat@ == "uninstall"@,
            v@ == exe_name_lower@,
            forall|j: int| 0 <= j < i ==> #[trigger] v@.subrange(j, j + m) != pat@,
        decreases n - m + 1 - i,
    {
        let mut k: usize = 0;
        let mut same = true;
        while k < m
            invariant
                k <= m,
                i + m <= n == v.len(),
                m == pat.len(),
                same == (forall|j: int| 0 <= j < k ==> v@[i + j] == pat@[j]),
            decreases m - k,
        {
            if v[i + k] != pat[k] {
                same = false;
            }
            k = k + 1;
        }
        if same {
            assert(v@.subrange(i as int, i + m) =~= pat@);
            return true;
        }
        assert(v@.subrange(i as int, i + m) != pat@) by {
            let j = choose|j: int| 0 <= j < m && v@[i + j] != pat@[j];
            assert(v@.subrange(i as int, i + m)[j] == v@[i + j]);
        }
        i = i + 1;
    }
    false
}

/// The install folder that an earlier install recorded, if the recorded
/// text is not blank: the text without the white space around it.
pub fn recorded_install_dir(value: &str) -> (r: Option<String>)
    ensures
        match r {
            Some(d) => trim(value@).len() > 0 && d@ == trim(value@),
            None => trim(value@).len() == 0,
        },
{
    let v = str_chars(value);
    let (a, b) = trim_range(&v, 0, v.len());
    assert(v@.subrange(0, v.len() as int) == v@);
    if a == b {
        return None;
    }
    Some(value.substring_char(a, b).to_owned())
}

/// The settings file that a fresh install writes, in the installer's
/// language: Alt + P, not started with Windows, shown in the tray, and five
/// recent colors.
pub open spec fn initial_config_text(code: Seq<char>) -> Seq<char> {
    "[Settings]\nlanguage="@ + code
        + "\nhotkey_mod=1\nhotkey_vk=80\nhotkey_name=Alt + P\nrun_on_startup=false\nshow_tray_icon=true\nrecent_colors=#3498db,#2ecc71,#e74c3c,#f1c40f,#9b59b6\n"@
}

/// Builds the first settings file; see [`initial_config_text`].
pub fn initial_config(lang: Language) -> (s: String)
    ensures
        lang == Language::Turkish ==> s@ == initial_config_text(seq!['t', 'r']),
        lang == Language::English ==> s@ == initial_config_text(seq!['e', 'n']),
{
    let mut s = "[Settings]\nlanguage=".to_owned();
    s.append(lang.to_code());
    s.append(
        "\nhotkey_mod=1\nhotkey_vk=80\nhotkey_name=Alt + P\nrun_on_startup=false\nshow_tray_icon=true\nrecent_colors=#3498db,#2ecc71,#e74c3c,#f1c40f,#9b59b6\n",
    );
    s
}

} // verus!
