//! The choices that the settings window offers for the hotkey, and how the
//! window's selections become settings.
use vstd::prelude::*;
use crate::config::{AppConfig, ConfigView};
use crate::i18n::Language;
use crate::text::dec_string;

verus! {

/// The modifier combinations on offer, as `RegisterHotKey` modifier flags:
/// Alt, Ctrl + Alt, Ctrl + Shift, Shift + Alt.
pub open spec fn modifier_values() -> Seq<u32> {
    seq![0x0001, 0x0003, 0x0006, 0x0005]
}

/// The names of the modifier combinations, in the same order.
pub open spec fn modifier_names() -> Seq<Seq<char>> {
    seq!["Alt"@, "Ctrl + Alt"@, "Ctrl + Shift"@, "Shift + Alt"@]
}

/// The keys on offer, as virtual-key codes: P, C, X, Z, S, F8 to F12.
pub open spec fn key_values() -> Seq<u32> {
    seq![0x50, 0x43, 0x58, 0x5A, 0x53, 0x77, 0x78, 0x79, 0x7A, 0x7B]
}

/// The names of the keys, in the same order.
pub open spec fn key_names() -> Seq<Seq<char>> {
    seq!["P"@, "C"@, "X"@, "Z"@, "S"@, "F8"@, "F9"@, "F10"@, "F11"@, "F12"@]
}

/// The position of `v` in `table`, or 0 when it is not there.
pub open spec fn index_in(table: Seq<u32>, v: u32) -> int {
    if exists|i: int| 0 <= i < table.len() && table[i] == v {
        choose|i: int| 0 <= i < table.len() && table[i] == v
    } else {
        0
    }
}

/// The entry of the modifier list that the settings window selects for the
/// modifier flags `m` (the first one when `m` is none of them).
pub fn modifier_index(m: u32) -> (i: usize)
    ensures
        i == index_in(modifier_values(), m),
{
    proof {
        lemma_index_in_distinct(modifier_values(), m);
    }
    match m {
        0x0001 => 0,
        0x0003 => 1,
        0x0006 => 2,
        0x0005 => 3,
        _ => 0,
    }
}

/// The entry of the key list that the settings window selects for the
/// virtual-key code `vk` (the first one when `vk` is none of them).
pub fn key_index(vk: u32) -> (i: usize)
    ensures
        i == index_in(key_values(), vk),
{
    proof {
        lemma_index_in_distinct(key_values(), vk);
    }
    match vk {
        0x50 => 0,
        0x43 => 1,
        0x58 => 2,
        0x5A => 3,
        0x53 => 4,
        0x77 => 5,
        0x78 => 6,
        0x79 => 7,
        0x7A => 8,
        0x7B => 9,
        _ => 0,
    }
}

/// The modifier flags and name of the selected entry of the modifier list;
/// a selection outside the list (such as none) counts as the first entry.
pub fn modifier_choice(sel: isize) -> (r: (u32, &'static str))
    ensures
        0 <= sel < 4 ==> r.0 == modifier_values()[sel as int] && r.1@ == modifier_names()[sel as int],
        !(0 <= sel < 4) ==> r.0 == modifier_values()[0] && r.1@ == modifier_names()[0],
{
    match sel {
        0 => (0x0001, "Alt"),
        1 => (0x0003, "Ctrl + Alt"),
        2 => (0x0006, "Ctrl + Shift"),
        3 => (0x0005, "Shift + Alt"),
        _ => (0x0001, "Alt"),
    }
}

/// The virtual-key code and name of the selected entry of the key list; a
/// selection outside the list counts as the first entry.
pub fn key_choice(sel: isize) -> (r: (u32, &'static str))
    ensures
        0 <= sel < 10 ==> r.0 == key_values()[sel as int] && r.1@ == key_names()[sel as int],
        !(0 <= sel < 10) ==> r.0 == key_values()[0] && r.1@ == key_names()[0],
{
    match sel {
        0 => (0x50, "P"),
        1 => (0x43, "C"),
        2 => (0x58, "X"),
        3 => (0x5A, "Z"),
        4 => (0x53, "S"),
        5 => (0x77, "F8"),
        6 => (0x78, "F9"),
        7 => (0x79, "F10"),
        8 => (0x7A, "F11"),
        9 => (0x7B, "F12"),
        _ => (0x50, "P"),
    }
}

/// The display name of a hotkey: `<modifiers> + <key>`.
pub open spec fn hotkey_display(mod_name: Seq<char>, key_name: Seq<char>) -> Seq<char> {
    mod_name + " + "@ + key_name
}

/// Builds the display name of a hotkey; see [`hotkey_display`].
pub fn hotkey_display_name(mod_name: &str, key_name: &str) -> (s: String)
    ensures
        s@ == hotkey_display(mod_name@, key_name@),
{
    let mut s = mod_name.to_owned();
    s.append(" + ");
    s.append(key_name);
    s
}

/// The settings after the settings window was saved with these selections:
/// the language list (first entry Turkish, any other English), the modifier
/// and key lists (see [`modifier_choice`] and [`key_choice`]) and the
/// start-with-Windows check box (checked when its state is 1).
pub open spec fn settings_after_save(
    cfg: ConfigView,
    lang_sel: isize,
    mod_sel: isize,
    key_sel: isize,
    startup_state: isize,
) -> ConfigView {
    let mi = if 0 <= mod_sel < 4 {
        mod_sel as int
    } else {
        0
    };
    let ki = if 0 <= key_sel < 10 {
        key_sel as int
    } else {
        0
    };
    ConfigView {
        language: if lang_sel == 0 {
            Language::Turkish
        } else {
            Language::English
        },
        hotkey_mod: modifier_values()[mi],
        hotkey_vk: key_values()[ki],
        hotkey_name: hotkey_display(modifier_names()[mi], key_names()[ki]),
        run_on_startup: startup_state == 1,
        ..cfg
    }
}

/// Takes over the selections of a saved settings window; see
/// [`settings_after_save`].
pub fn apply_settings_selection(
    cfg: &mut AppConfig,
    lang_sel: isize,
    mod_sel: isize,
    key_sel: isize,
    startup_state: isize,
)
    ensures
        final(cfg)@ == settings_after_save(old(cfg)@, lang_sel, mod_sel, key_sel, startup_state),
{
    cfg.language = if lang_sel == 0 {
        Language::Turkish
    } else {
        Language::English
    };
    let (mod_val, mod_name) = modifier_choice(mod_sel);
    let (vk_val, key_name) = key_choice(key_sel);
    cfg.hotkey_mod = mod_val;
    cfg.hotkey_vk = vk_val;
    cfg.hotkey_name = hotkey_display_name(mod_name, key_name);
    cfg.run_on_startup = startup_state == 1;
}

/// In a table without repeats, the index of an entry is its position.
proof fn lemma_index_in_distinct(table: Seq<u32>, v: u32)
    requires
        forall|i: int, j: int| 0 <= i < j < table.len() ==> table[i] != table[j],
    ensures
        forall|i: int| 0 <= i < table.len() && table[i] == v ==> index_in(table, v) == i,
        !table.contains(v) ==> index_in(table, v) == 0,
{
    if exists|i: int| 0 <= i < table.len() && table[i] == v {
        let j = choose|i: int| 0 <= i < table.len() && table[i] == v;
        assert forall|i: int| 0 <= i < table.len() && table[i] == v implies index_in(table, v)
            == i by {
            if i < j {
                assert(table[i] != table[j]);
            } else if j < i {
                assert(table[j] != table[i]);
            }
        }
    }
}

/// Law: opening the settings window on settings whose hotkey is one of the
/// offered ones and saving it unchanged keeps the language, the hotkey and
/// the start-with-Windows switch.
pub proof fn lemma_settings_unchanged(cfg: ConfigView)
    requires
        modifier_values().contains(cfg.hotkey_mod),
        key_values().contains(cfg.hotkey_vk),
    ensures
        ({
            let lang_sel: isize = if cfg.language == Language::Turkish {
                0
            } else {
                1
            };
            let r = settings_after_save(
                cfg,
                lang_sel,
                index_in(modifier_values(), cfg.hotkey_mod) as isize,
                index_in(key_values(), cfg.hotkey_vk) as isize,
                if cfg.run_on_startup {
                    1
                } else {
                    0
                },
            );
            &&& r.language == cfg.language
            &&& r.hotkey_mod == cfg.hotkey_mod
            &&& r.hotkey_vk == cfg.hotkey_vk
            &&& r.run_on_startup == cfg.run_on_startup
            &&& r.show_tray_icon == cfg.show_tray_icon
            &&& r.recent_colors == cfg.recent_colors
        }),
{
    lemma_index_in_distinct(modifier_values(), cfg.hotkey_mod);
    lemma_index_in_distinct(key_values(), cfg.hotkey_vk);
    let i = choose|i: int| 0 <= i < modifier_values().len() && modifier_values()[i] == cfg.hotkey_mod;
    let k = choose|k: int| 0 <= k < key_values().len() && key_values()[k] == cfg.hotkey_vk;
    assert(index_in(modifier_values(), cfg.hotkey_mod) == i);
    assert(index_in(key_values(), cfg.hotkey_vk) == k);
}

/// The name of a virtual-key code as Windows defines the codes: the
/// letters `A` to `Z` are their own upper-case code points, and `F1` to
/// `F24` are the codes from 0x70 on.
pub open spec fn vk_name(vk: u32) -> Seq<char> {
    if 0x41 <= vk <= 0x5A {
        seq![vk as char]
    } else if 0x70 <= vk <= 0x87 {
        seq!['F'] + dec_string((vk - 0x6F) as nat)
    } else {
        Seq::empty()
    }
}

/// The names in a list of parts, joined by ` + `.
pub open spec fn joined(parts: Seq<Seq<char>>) -> Seq<char>
    decreases parts.len(),
{
    if parts.len() == 0 {
        Seq::empty()
    } else if parts.len() == 1 {
        parts[0]
    } else {
        parts[0] + " + "@ + joined(parts.drop_first())
    }
}

/// The name of a set of `RegisterHotKey` modifier flags (`MOD_ALT` 1,
/// `MOD_CONTROL` 2, `MOD_SHIFT` 4): the held keys in the order Ctrl, Shift,
/// Alt, joined by ` + `.
pub open spec fn modifier_name(flags: u32) -> Seq<char> {
    let alt = flags % 2 == 1;
    let ctrl = (flags / 2) % 2 == 1;
    let shift = (flags / 4) % 2 == 1;
    joined(
        (if ctrl { seq!["Ctrl"@] } else { Seq::empty() }) + (if shift {
            seq!["Shift"@]
        } else {
            Seq::empty()
        }) + (if alt { seq!["Alt"@] } else { Seq::empty() }),
    )
}

/// Law: each entry of the modifier and key lists is named after what it
/// registers: the name of an offered modifier set is the name of its flags,
/// and the name of an offered key is the name of its virtual-key code.
pub proof fn lemma_choices_named_by_their_codes()
    ensures
        forall|i: int| 0 <= i < 4 ==> #[trigger] modifier_names()[i] == modifier_name(modifier_values()[i]),
        forall|i: int| 0 <= i < 10 ==> #[trigger] key_names()[i] == vk_name(key_values()[i]),
{
    reveal_strlit("Alt");
    reveal_strlit("Ctrl");
    reveal_strlit("Shift");
    reveal_strlit(" + ");
    reveal_strlit("Ctrl + Alt");
    reveal_strlit("Ctrl + Shift");
    reveal_strlit("Shift + Alt");
    reveal_strlit("P");
    reveal_strlit("C");
    reveal_strlit("X");
    reveal_strlit("Z");
    reveal_strlit("S");
    reveal_strlit("F8");
    reveal_strlit("F9");
    reveal_strlit("F10");
    reveal_strlit("F11");
    reveal_strlit("F12");
    reveal_with_fuel(joined, 3);
    reveal_with_fuel(dec_string, 2);
    assert(modifier_names()[0] == modifier_name(modifier_values()[0]));
    assert(modifier_names()[1] == modifier_name(modifier_values()[1]));
    assert(modifier_names()[2] == modifier_name(modifier_values()[2]));
    assert(modifier_names()[3] == modifier_name(modifier_values()[3]));
    assert(key_names()[0] == vk_name(key_values()[0]));
    assert(key_names()[1] == vk_name(key_values()[1]));
    assert(key_names()[2] == vk_name(key_values()[2]));
    assert(key_names()[3] == vk_name(key_values()[3]));
    assert(key_names()[4] == vk_name(key_values()[4]));
    assert(key_names()[5] == vk_name(key_values()[5]));
    assert(key_names()[6] == vk_name(key_values()[6]));
    assert(key_names()[7] == vk_name(key_values()[7]));
    assert(key_names()[8] == vk_name(key_values()[8]));
    assert(key_names()[9] == vk_name(key_values()[9]));
}

/// Law: whatever is selected in the settings window, the saved hotkey name
/// names the saved hotkey: the name of its modifier flags and the name of its
/// virtual-key code, joined by ` + `.
pub proof fn lemma_saved_name_names_the_hotkey(
    cfg: ConfigView,
    lang_sel: isize,
    mod_sel: isize,
    key_sel: isize,
    startup_state: isize,
)
    ensures
        ({
            let r = settings_after_save(cfg, lang_sel, mod_sel, key_sel, startup_state);
            r.hotkey_name == hotkey_display(modifier_name(r.hotkey_mod), vk_name(r.hotkey_vk))
        }),
{
    lemma_choices_named_by_their_codes();
    let mi = if 0 <= mod_sel < 4 { mod_sel as int } else { 0 };
    let ki = if 0 <= key_sel < 10 { key_sel as int } else { 0 };
    assert(modifier_names()[mi] == modifier_name(modifier_values()[mi]));
    assert(key_names()[ki] == vk_name(key_values()[ki]));
}

} // verus!
