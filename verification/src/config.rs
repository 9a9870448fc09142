//! The picker's settings: their defaults, how a settings file reads, how the
//! settings are written back, and the list of recently picked colors.
use vstd::prelude::*;
use crate::color::{
    lemma_hex_char, lemma_hex_round_trip, RgbColor, hex_string, parse_hex_color, hex_text_splits_char, hex_color_of_chars,
    hex_text_splits_char_range,
};
use crate::i18n::{Language, language_of_code, code_of, language_of_chars, lemma_code_round_trip};
use crate::text::{
    unsigned_digits,    trim, first_pos, split_on, parse_u32, dec_string, str_chars, trim_range, find_char,
    range_eq_str, parse_u32_range, push_decimal, lemma_first_pos_char, lemma_split_on_step,
    lemma_split_on_last, lemma_trim_id, lemma_trimmed_ends, lemma_dec_string, is_ws, is_digit, trim_start, trim_end,
};

verus! {

/// How many colors the recent-colors list keeps.
pub const MAX_RECENT_COLORS: usize = 10;

/// The settings as plain values.
#[verifier::ext_equal]
pub struct ConfigView {
    pub language: Language,
    pub hotkey_mod: u32,
    pub hotkey_vk: u32,
    pub hotkey_name: Seq<char>,
    pub run_on_startup: bool,
    pub show_tray_icon: bool,
    pub recent_colors: Seq<RgbColor>,
}

/// The picker's settings.
#[derive(Debug, Clone)]
pub struct AppConfig {
    pub language: Language,
    pub hotkey_mod: u32,
    pub hotkey_vk: u32,
    pub hotkey_name: String,
    pub run_on_startup: bool,
    pub show_tray_icon: bool,
    pub recent_colors: Vec<RgbColor>,
}

impl View for AppConfig {
    type V = ConfigView;

    open spec fn view(&self) -> ConfigView {
        ConfigView {
            language: self.language,
            hotkey_mod: self.hotkey_mod,
            hotkey_vk: self.hotkey_vk,
            hotkey_name: self.hotkey_name@,
            run_on_startup: self.run_on_startup,
            show_tray_icon: self.show_tray_icon,
            recent_colors: self.recent_colors@,
        }
    }
}

/// The colors that a fresh configuration offers as recent ones.
pub open spec fn default_recent_colors() -> Seq<RgbColor> {
    seq![
        RgbColor { r: 52, g: 152, b: 219 },
        RgbColor { r: 46, g: 204, b: 113 },
        RgbColor { r: 231, g: 76, b: 60 },
        RgbColor { r: 241, g: 196, b: 15 },
        RgbColor { r: 155, g: 89, b: 182 },
        RgbColor { r: 26, g: 188, b: 156 },
        RgbColor { r: 230, g: 126, b: 34 },
        RgbColor { r: 52, g: 73, b: 94 },
        RgbColor { r: 236, g: 240, b: 241 },
        RgbColor { r: 44, g: 62, b: 80 },
    ]
}

/// The default settings: Turkish, Alt + P (`MOD_ALT` and the `P` key),
/// not started with Windows, shown in the tray.
pub open spec fn default_config() -> ConfigView {
    ConfigView {
        language: Language::Turkish,
        hotkey_mod: 1,
        hotkey_vk: 0x50,
        hotkey_name: "Alt + P"@,
        run_on_startup: false,
        show_tray_icon: true,
        recent_colors: default_recent_colors(),
    }
}

impl Default for AppConfig {
    fn default() -> (c: Self)
        ensures
            c@ == default_config(),
    {
        AppConfig {
            language: Language::Turkish,
            hotkey_mod: 0x0001,
            hotkey_vk: 0x50,
            hotkey_name: "Alt + P".to_owned(),
            run_on_startup: false,
            show_tray_icon: true,
            recent_colors: vec![
                RgbColor::new(52, 152, 219),
                RgbColor::new(46, 204, 113),
                RgbColor::new(231, 76, 60),
                RgbColor::new(241, 196, 15),
                RgbColor::new(155, 89, 182),
                RgbColor::new(26, 188, 156),
                RgbColor::new(230, 126, 34),
                RgbColor::new(52, 73, 94),
                RgbColor::new(236, 240, 241),
                RgbColor::new(44, 62, 80),
            ],
        }
    }
}

/// The setting name `language`.
pub open spec fn key_language() -> Seq<char> {
    seq!['l', 'a', 'n', 'g', 'u', 'a', 'g', 'e']
}

/// The setting name `hotkey_mod`.
pub open spec fn key_hotkey_mod() -> Seq<char> {
    seq!['h', 'o', 't', 'k', 'e', 'y', '_', 'm', 'o', 'd']
}

/// The setting name `hotkey_vk`.
pub open spec fn key_hotkey_vk() -> Seq<char> {
    seq!['h', 'o', 't', 'k', 'e', 'y', '_', 'v', 'k']
}

/// The setting name `hotkey_name`.
pub open spec fn key_hotkey_name() -> Seq<char> {
    seq!['h', 'o', 't', 'k', 'e', 'y', '_', 'n', 'a', 'm', 'e']
}

/// The setting name `run_on_startup`.
pub open spec fn key_run_on_startup() -> Seq<char> {
    seq!['r', 'u', 'n', '_', 'o', 'n', '_', 's', 't', 'a', 'r', 't', 'u', 'p']
}

/// The setting name `show_tray_icon`.
pub open spec fn key_show_tray_icon() -> Seq<char> {
    seq!['s', 'h', 'o', 'w', '_', 't', 'r', 'a', 'y', '_', 'i', 'c', 'o', 'n']
}

/// The setting name `recent_colors`.
pub open spec fn key_recent_colors() -> Seq<char> {
    seq!['r', 'e', 'c', 'e', 'n', 't', '_', 'c', 'o', 'l', 'o', 'r', 's']
}

pub open spec fn word_true() -> Seq<char> {
    seq!['t', 'r', 'u', 'e']
}

pub open spec fn word_false() -> Seq<char> {
    seq!['f', 'a', 'l', 's', 'e']
}

/// A switch setting is on when its value is `true` or `1`.
pub open spec fn switch_value(v: Seq<char>) -> bool {
    v == word_true() || v == seq!['1']
}

/// The colors that the pieces of a comma-separated list name, in order;
/// pieces that name no color are skipped.
pub open spec fn parse_colors(pieces: Seq<Seq<char>>) -> Seq<RgbColor>
    decreases pieces.len(),
{
    if pieces.len() == 0 {
        Seq::empty()
    } else {
        match parse_hex_color(pieces[0]) {
            Some(c) => seq![c] + parse_colors(pieces.drop_first()),
            None => parse_colors(pieces.drop_first()),
        }
    }
}

/// The colors of a `recent_colors` value.
pub open spec fn color_list(v: Seq<char>) -> Seq<RgbColor> {
    parse_colors(split_on(v, ','))
}

/// The effect of one `key=value` pair (both trimmed) on the settings.
/// Unknown keys and values that do not read are ignored.
pub open spec fn apply_setting(cfg: ConfigView, k: Seq<char>, v: Seq<char>) -> ConfigView {
    if k == key_language() {
        ConfigView { language: language_of_code(v), ..cfg }
    } else if k == key_hotkey_mod() {
        match parse_u32(v) {
            Some(m) => ConfigView { hotkey_mod: m, ..cfg },
            None => cfg,
        }
    } else if k == key_hotkey_vk() {
        match parse_u32(v) {
            Some(m) => ConfigView { hotkey_vk: m, ..cfg },
            None => cfg,
        }
    } else if k == key_hotkey_name() {
        if v.len() > 0 {
            ConfigView { hotkey_name: v, ..cfg }
        } else {
            cfg
        }
    } else if k == key_run_on_startup() {
        ConfigView { run_on_startup: switch_value(v), ..cfg }
    } else if k == key_show_tray_icon() {
        ConfigView { show_tray_icon: switch_value(v), ..cfg }
    } else if k == key_recent_colors() {
        if color_list(v).len() > 0 {
            ConfigView { recent_colors: color_list(v), ..cfg }
        } else {
            cfg
        }
    } else {
        cfg
    }
}

/// The effect of one line of a settings file: blank lines, comments
/// (starting with `#` or `;`) and lines without `=` are ignored; otherwise
/// the text before the first `=` is the key and the rest the value.
pub open spec fn apply_line(cfg: ConfigView, raw: Seq<char>) -> ConfigView {
    let line = trim(raw);
    if line.len() == 0 || line[0] == '#' || line[0] == ';' {
        cfg
    } else {
        match first_pos(line, '=') {
            Some(i) => apply_setting(cfg, trim(line.take(i)), trim(line.skip(i + 1))),
            None => cfg,
        }
    }
}

/// The effect of a sequence of lines, first to last.
pub open spec fn apply_lines(cfg: ConfigView, lines: Seq<Seq<char>>) -> ConfigView
    decreases lines.len(),
{
    if lines.len() == 0 {
        cfg
    } else {
        apply_lines(apply_line(cfg, lines[0]), lines.drop_first())
    }
}

/// The settings that a settings file holds: the defaults, changed by each
/// line in turn.
pub open spec fn parse_config(text: Seq<char>) -> ConfigView {
    apply_lines(default_config(), split_on(text, '\n'))
}

/// Whether reading one of `pieces` as a color splits a character.
pub open spec fn pieces_split_char(pieces: Seq<Seq<char>>) -> bool
    decreases pieces.len(),
{
    pieces.len() > 0 && (hex_text_splits_char(pieces[0]) || pieces_split_char(
        pieces.drop_first(),
    ))
}

/// Whether reading the line as a setting splits a character: it is a
/// `recent_colors` line one of whose pieces does.
pub open spec fn line_splits_char(raw: Seq<char>) -> bool {
    let line = trim(raw);
    &&& line.len() > 0
    &&& line[0] != '#'
    &&& line[0] != ';'
    &&& match first_pos(line, '=') {
        Some(i) => trim(line.take(i)) == key_recent_colors() && pieces_split_char(
            split_on(trim(line.skip(i + 1)), ','),
        ),
        None => false,
    }
}

/// Whether reading one of the lines splits a character.
pub open spec fn lines_split_char(lines: Seq<Seq<char>>) -> bool
    decreases lines.len(),
{
    lines.len() > 0 && (line_splits_char(lines[0]) || lines_split_char(lines.drop_first()))
}

/// The settings files on whose color lists reading slices a string through
/// the middle of a character.
pub open spec fn config_text_splits_char(text: Seq<char>) -> bool {
    lines_split_char(split_on(text, '\n'))
}

impl AppConfig {
    /// Reads the settings that a settings file holds; see [`parse_config`].
    pub fn parse(content: &str) -> (c: Self)
        requires
            !config_text_splits_char(content@),
        ensures
            c@ == parse_config(content@),
    {
        let v = str_chars(content);
        let mut cfg = AppConfig::default();
        let n = v.len();
        let mut p: usize = 0;
        assert(v@.subrange(0, n as int) == content@);
        loop
            invariant_except_break
                p <= n == v.len(),
                v@ == content@,
                parse_config(content@) == apply_lines(
                    cfg@,
                    split_on(v@.subrange(p as int, n as int), '\n'),
                ),
                !lines_split_char(split_on(v@.subrange(p as int, n as int), '\n')),
            ensures
                cfg@ == parse_config(content@),
            decreases n - p,
        {
            let q = find_char(&v, p, n, '\n');
            let ghost rest = v@.subrange(p as int, n as int);
            let ghost lines = split_on(rest, '\n');
            proof {
                if q < n {
                    lemma_split_on_step(rest, '\n', q - p);
                    assert(rest.take(q - p) == v@.subrange(p as int, q as int));
                    assert(rest.skip(q - p + 1) == v@.subrange(q + 1, n as int));
                } else {
                    lemma_split_on_last(rest, '\n');
                    assert(rest == v@.subrange(p as int, q as int));
                }
                assert(lines[0] == v@.subrange(p as int, q as int));
            }
            let ghost before = cfg@;
            apply_line_chars(&mut cfg, &v, content, p, q);
            assert(apply_lines(before, lines) == apply_lines(cfg@, lines.drop_first()));
            if q == n {
                assert(lines.drop_first().len() == 0);
                assert(apply_lines(cfg@, lines.drop_first()) == cfg@);
                break;
            }
            assert(lines.drop_first() == split_on(v@.subrange(q + 1, n as int), '\n'));
            p = q + 1;
        }
        cfg
    }

    /// Whether [`AppConfig::parse`] would have to split a character of
    /// `content` (the inputs that its `requires` leaves out).
    pub fn text_splits_char(content: &str) -> (b: bool)
        ensures
            b == config_text_splits_char(content@),
    {
        let v = str_chars(content);
        let n = v.len();
        let mut p: usize = 0;
        assert(v@.subrange(0, n as int) == content@);
        loop
            invariant_except_break
                p <= n == v.len(),
                v@ == content@,
                config_text_splits_char(content@) == lines_split_char(
                    split_on(v@.subrange(p as int, n as int), '\n'),
                ),
            ensures
                !config_text_splits_char(content@),
            decreases n - p,
        {
            let q = find_char(&v, p, n, '\n');
            let ghost rest = v@.subrange(p as int, n as int);
            let ghost lines = split_on(rest, '\n');
            proof {
                if q < n {
                    lemma_split_on_step(rest, '\n', q - p);
                    assert(rest.take(q - p) == v@.subrange(p as int, q as int));
                    assert(rest.skip(q - p + 1) == v@.subrange(q + 1, n as int));
                } else {
                    lemma_split_on_last(rest, '\n');
                    assert(rest == v@.subrange(p as int, q as int));
                }
                assert(lines[0] == v@.subrange(p as int, q as int));
            }
            if line_splits_char_exec(&v, p, q) {
                return true;
            }
            assert(lines_split_char(lines) == lines_split_char(lines.drop_first()));
            if q == n {
                assert(lines.drop_first().len() == 0);
                assert(!lines_split_char(lines.drop_first()));
                break;
            }
            assert(lines.drop_first() == split_on(v@.subrange(q + 1, n as int), '\n'));
            p = q + 1;
        }
        false
    }
}

/// Where the key and the value of the setting line `v[lo..hi]` stand, if it
/// is one: `(ka, kb, va, vb)` with `v[ka..kb]` the trimmed key and
/// `v[va..vb]` the trimmed value.
fn setting_ranges(v: &Vec<char>, lo: usize, hi: usize) -> (r: Option<(usize, usize, usize, usize)>)
    requires
        lo <= hi <= v.len(),
    ensures
        ({
            let line = trim(v@.subrange(lo as int, hi as int));
            match r {
                None => line.len() == 0 || line[0] == '#' || line[0] == ';' || first_pos(
                    line,
                    '=',
                ) is None,
                Some((ka, kb, va, vb)) => {
                    &&& line.len() > 0 && line[0] != '#' && line[0] != ';'
                    &&& first_pos(line, '=') is Some
                    &&& ka <= kb <= v.len() && va <= vb <= v.len()
                    &&& v@.subrange(ka as int, kb as int) == trim(
                        line.take(first_pos(line, '=')->0),
                    )
                    &&& v@.subrange(va as int, vb as int) == trim(
                        line.skip(first_pos(line, '=')->0 + 1),
                    )
                },
            }
        }),
{
    let (a, b) = trim_range(v, lo, hi);
    let ghost line = v@.subrange(a as int, b as int);
    if a == b || v[a] == '#' || v[a] == ';' {
        return None;
    }
    let e = find_char(v, a, b, '=');
    proof {
        assert forall|j: int| 0 <= j < e - a implies line[j] != '=' by {
            assert(line[j] == v@[a + j]);
        }
        lemma_first_pos_char(line, '=', e - a);
    }
    if e == b {
        return None;
    }
    let (ka, kb) = trim_range(v, a, e);
    let (va, vb) = trim_range(v, e + 1, b);
    assert(line.take(e - a) == v@.subrange(a as int, e as int));
    assert(line.skip(e - a + 1) == v@.subrange(e + 1, b as int));
    Some((ka, kb, va, vb))
}

/// Applies the setting line `v[lo..hi]` (of `content`, whose characters `v`
/// holds) to `cfg`.
fn apply_line_chars(cfg: &mut AppConfig, v: &Vec<char>, content: &str, lo: usize, hi: usize)
    requires
        lo <= hi <= v.len(),
        v@ == content@,
        !line_splits_char(v@.subrange(lo as int, hi as int)),
    ensures
        final(cfg)@ == apply_line(old(cfg)@, v@.subrange(lo as int, hi as int)),
{
    match setting_ranges(v, lo, hi) {
        None => {},
        Some((ka, kb, va, vb)) => {
            apply_setting_chars(cfg, v, content, ka, kb, va, vb);
        },
    }
}

/// Applies the setting with key `v[ka..kb]` and value `v[va..vb]`.
fn apply_setting_chars(
    cfg: &mut AppConfig,
    v: &Vec<char>,
    content: &str,
    ka: usize,
    kb: usize,
    va: usize,
    vb: usize,
)
    requires
        ka <= kb <= v.len(),
        va <= vb <= v.len(),
        v@ == content@,
        v@.subrange(ka as int, kb as int) == key_recent_colors() ==> !pieces_split_char(
            split_on(v@.subrange(va as int, vb as int), ','),
        ),
    ensures
        final(cfg)@ == apply_setting(
            old(cfg)@,
            v@.subrange(ka as int, kb as int),
            v@.subrange(va as int, vb as int),
        ),
{
    proof {
        reveal_strlit("language");
        reveal_strlit("hotkey_mod");
        reveal_strlit("hotkey_vk");
        reveal_strlit("hotkey_name");
        reveal_strlit("run_on_startup");
        reveal_strlit("show_tray_icon");
        reveal_strlit("recent_colors");
        reveal_strlit("true");
        reveal_strlit("1");
    }
    assert("language"@ == key_language());
    assert("hotkey_mod"@ == key_hotkey_mod());
    assert("hotkey_vk"@ == key_hotkey_vk());
    assert("hotkey_name"@ == key_hotkey_name());
    assert("run_on_startup"@ == key_run_on_startup());
    assert("show_tray_icon"@ == key_show_tray_icon());
    assert("recent_colors"@ == key_recent_colors());
    assert("true"@ == word_true());
    assert("1"@ == seq!['1']);
    if range_eq_str(v, ka, kb, "language") {
        cfg.language = language_of_chars(v, va, vb);
    } else if range_eq_str(v, ka, kb, "hotkey_mod") {
        if let Some(m) = parse_u32_range(v, va, vb) {
            cfg.hotkey_mod = m;
        }
    } else if range_eq_str(v, ka, kb, "hotkey_vk") {
        if let Some(m) = parse_u32_range(v, va, vb) {
            cfg.hotkey_vk = m;
        }
    } else if range_eq_str(v, ka, kb, "hotkey_name") {
        if vb > va {
            cfg.hotkey_name = content.substring_char(va, vb).to_owned();
        }
    } else if range_eq_str(v, ka, kb, "run_on_startup") {
        cfg.run_on_startup = range_eq_str(v, va, vb, "true") || range_eq_str(v, va, vb, "1");
    } else if range_eq_str(v, ka, kb, "show_tray_icon") {
        cfg.show_tray_icon = range_eq_str(v, va, vb, "true") || range_eq_str(v, va, vb, "1");
    } else if range_eq_str(v, ka, kb, "recent_colors") {
        let list = parse_color_list(v, va, vb);
        if list.len() > 0 {
            cfg.recent_colors = list;
        }
    }
}

/// Whether the setting line `v[lo..hi]` splits a character when read.
fn line_splits_char_exec(v: &Vec<char>, lo: usize, hi: usize) -> (b: bool)
    requires
        lo <= hi <= v.len(),
    ensures
        b == line_splits_char(v@.subrange(lo as int, hi as int)),
{
    proof {
        reveal_strlit("recent_colors");
    }
    assert("recent_colors"@ == key_recent_colors());
    match setting_ranges(v, lo, hi) {
        None => false,
        Some((ka, kb, va, vb)) => {
            if range_eq_str(v, ka, kb, "recent_colors") {
                pieces_split_char_exec(v, va, vb)
            } else {
                false
            }
        },
    }
}

/// Reads the colors of the comma-separated list `v[lo..hi]`.
fn parse_color_list(v: &Vec<char>, lo: usize, hi: usize) -> (list: Vec<RgbColor>)
    requires
        lo <= hi <= v.len(),
        !pieces_split_char(split_on(v@.subrange(lo as int, hi as int), ',')),
    ensures
        list@ == color_list(v@.subrange(lo as int, hi as int)),
{
    let mut list: Vec<RgbColor> = Vec::new();
    let mut p = lo;
    loop
        invariant_except_break
            lo <= p <= hi <= v.len(),
            color_list(v@.subrange(lo as int, hi as int)) == list@ + parse_colors(
                split_on(v@.subrange(p as int, hi as int), ','),
            ),
            !pieces_split_char(split_on(v@.subrange(p as int, hi as int), ',')),
        ensures
            list@ == color_list(v@.subrange(lo as int, hi as int)),
        decreases hi - p,
    {
        let q = find_char(v, p, hi, ',');
        let ghost rest = v@.subrange(p as int, hi as int);
        let ghost pieces = split_on(rest, ',');
        proof {
            if q < hi {
                lemma_split_on_step(rest, ',', q - p);
                assert(rest.take(q - p) == v@.subrange(p as int, q as int));
                assert(rest.skip(q - p + 1) == v@.subrange(q + 1, hi as int));
            } else {
                lemma_split_on_last(rest, ',');
                assert(rest == v@.subrange(p as int, q as int));
            }
            assert(pieces[0] == v@.subrange(p as int, q as int));
        }
        let ghost old_list = list@;
        match hex_color_of_chars(v, p, q) {
            Some(c) => {
                list.push(c);
                assert(list@ == old_list + seq![c]);
                assert(parse_colors(pieces) == seq![c] + parse_colors(pieces.drop_first()));
                assert(old_list + parse_colors(pieces) == list@ + parse_colors(
                    pieces.drop_first(),
                ));
            },
            None => {
                assert(parse_colors(pieces) == parse_colors(pieces.drop_first()));
            },
        }
        if q == hi {
            assert(pieces.drop_first().len() == 0);
            assert(parse_colors(pieces.drop_first()).len() == 0);
            assert(list@ + parse_colors(pieces.drop_first()) == list@);
            break;
        }
        assert(pieces.drop_first() == split_on(v@.subrange(q + 1, hi as int), ','));
        p = q + 1;
    }
    list
}

/// Whether reading one of the pieces of the comma-separated list `v[lo..hi]`
/// as a color splits a character.
fn pieces_split_char_exec(v: &Vec<char>, lo: usize, hi: usize) -> (b: bool)
    requires
        lo <= hi <= v.len(),
    ensures
        b == pieces_split_char(split_on(v@.subrange(lo as int, hi as int), ',')),
{
    let mut p = lo;
    loop
        invariant_except_break
            lo <= p <= hi <= v.len(),
            pieces_split_char(split_on(v@.subrange(lo as int, hi as int), ','))
                == pieces_split_char(split_on(v@.subrange(p as int, hi as int), ',')),
        ensures
            !pieces_split_char(split_on(v@.subrange(lo as int, hi as int), ',')),
        decreases hi - p,
    {
        let q = find_char(v, p, hi, ',');
        let ghost rest = v@.subrange(p as int, hi as int);
        let ghost pieces = split_on(rest, ',');
        proof {
            if q < hi {
                lemma_split_on_step(rest, ',', q - p);
                assert(rest.take(q - p) == v@.subrange(p as int, q as int));
                assert(rest.skip(q - p + 1) == v@.subrange(q + 1, hi as int));
            } else {
                lemma_split_on_last(rest, ',');
                assert(rest == v@.subrange(p as int, q as int));
            }
            assert(pieces[0] == v@.subrange(p as int, q as int));
        }
        if hex_text_splits_char_range(v, p, q) {
            return true;
        }
        assert(pieces_split_char(pieces) == pieces_split_char(pieces.drop_first()));
        if q == hi {
            assert(pieces.drop_first().len() == 0);
            assert(!pieces_split_char(pieces.drop_first()));
            break;
        }
        assert(pieces.drop_first() == split_on(v@.subrange(q + 1, hi as int), ','));
        p = q + 1;
    }
    false
}

/// `true` or `false`.
pub open spec fn bool_word(b: bool) -> Seq<char> {
    if b {
        word_true()
    } else {
        word_false()
    }
}

/// The `#RRGGBB` texts of the colors, joined by commas.
pub open spec fn colors_text(cs: Seq<RgbColor>) -> Seq<char>
    decreases cs.len(),
{
    if cs.len() == 0 {
        Seq::empty()
    } else if cs.len() == 1 {
        hex_string(cs[0])
    } else {
        hex_string(cs[0]) + seq![','] + colors_text(cs.drop_first())
    }
}

/// `key=value` without the line end.
pub open spec fn setting_text(k: Seq<char>, v: Seq<char>) -> Seq<char> {
    k + seq!['='] + v
}

/// The section header line, `[Settings]`.
pub open spec fn section_header() -> Seq<char> {
    seq!['[', 'S', 'e', 't', 't', 'i', 'n', 'g', 's', ']']
}

/// `line` followed by a line end and `rest`.
pub open spec fn then_line(line: Seq<char>, rest: Seq<char>) -> Seq<char> {
    line + seq!['\n'] + rest
}

/// The settings file that [`AppConfig::to_ini_string`] writes: a section
/// header and one `key=value` line per setting, each ended by a line end.
pub open spec fn config_text(c: ConfigView) -> Seq<char> {
    then_line(
        section_header(),
        then_line(
            setting_text(key_language(), code_of(c.language)),
            then_line(
                setting_text(key_hotkey_mod(), dec_string(c.hotkey_mod as nat)),
                then_line(
                    setting_text(key_hotkey_vk(), dec_string(c.hotkey_vk as nat)),
                    then_line(
                        setting_text(key_hotkey_name(), c.hotkey_name),
                        then_line(
                            setting_text(key_run_on_startup(), bool_word(c.run_on_startup)),
                            then_line(
                                setting_text(key_show_tray_icon(), bool_word(c.show_tray_icon)),
                                then_line(
                                    setting_text(key_recent_colors(), colors_text(c.recent_colors)),
                                    Seq::empty(),
                                ),
                            ),
                        ),
                    ),
                ),
            ),
        ),
    )
}

/// The recent colors after picking `c`: `c` first, then the others in their
/// order without `c`, at most [`MAX_RECENT_COLORS`] in all.
pub open spec fn recent_after_pick(list: Seq<RgbColor>, c: RgbColor) -> Seq<RgbColor> {
    let l = seq![c] + without(list, c);
    if l.len() > MAX_RECENT_COLORS {
        l.take(MAX_RECENT_COLORS as int)
    } else {
        l
    }
}

/// `list` with every `c` removed.
pub open spec fn without(list: Seq<RgbColor>, c: RgbColor) -> Seq<RgbColor>
    decreases list.len(),
{
    if list.len() == 0 {
        list
    } else if list.last() == c {
        without(list.drop_last(), c)
    } else {
        without(list.drop_last(), c).push(list.last())
    }
}

impl AppConfig {
    /// The settings file text that holds these settings; see [`config_text`].
    pub fn to_ini_string(&self) -> (s: String)
        ensures
            s@ == config_text(self@),
    {
        proof {
            reveal_strlit("[Settings]");
            reveal_strlit("language=");
            reveal_strlit("hotkey_mod=");
            reveal_strlit("hotkey_vk=");
            reveal_strlit("hotkey_name=");
            reveal_strlit("run_on_startup=");
            reveal_strlit("show_tray_icon=");
            reveal_strlit("recent_colors=");
        }
        assert("[Settings]"@ == section_header());
        assert("language="@ == key_language() + seq!['=']);
        assert("hotkey_mod="@ == key_hotkey_mod() + seq!['=']);
        assert("hotkey_vk="@ == key_hotkey_vk() + seq!['=']);
        assert("hotkey_name="@ == key_hotkey_name() + seq!['=']);
        assert("run_on_startup="@ == key_run_on_startup() + seq!['=']);
        assert("show_tray_icon="@ == key_show_tray_icon() + seq!['=']);
        assert("recent_colors="@ == key_recent_colors() + seq!['=']);
        let mut colors = String::new();
        push_colors_text(&mut colors, &self.recent_colors);
        assert(colors@ == colors_text(self.recent_colors@));
        let mut mod_text = String::new();
        push_decimal(&mut mod_text, self.hotkey_mod);
        let mut vk_text = String::new();
        push_decimal(&mut vk_text, self.hotkey_vk);
        let r = line_then(setting_line_str("recent_colors=", colors.as_str()), &String::new());
        let r = line_then(
            setting_line_str("show_tray_icon=", bool_str(self.show_tray_icon)),
            &r,
        );
        let r = line_then(
            setting_line_str("run_on_startup=", bool_str(self.run_on_startup)),
            &r,
        );
        let r = line_then(setting_line_str("hotkey_name=", self.hotkey_name.as_str()), &r);
        let r = line_then(setting_line_str("hotkey_vk=", vk_text.as_str()), &r);
        let r = line_then(setting_line_str("hotkey_mod=", mod_text.as_str()), &r);
        let r = line_then(setting_line_str("language=", self.language.to_code()), &r);
        line_then("[Settings]".to_owned(), &r)
    }

    /// Puts `color` first in the recent colors, without repeating it and
    /// keeping at most [`MAX_RECENT_COLORS`]; see [`recent_after_pick`].
    pub fn add_recent_color(&mut self, color: RgbColor)
        ensures
            final(self)@ == (ConfigView {
                recent_colors: recent_after_pick(old(self)@.recent_colors, color),
                ..old(self)@
            }),
    {
        let mut kept: Vec<RgbColor> = Vec::new();
        kept.push(color);
        let n = self.recent_colors.len();
        let mut i: usize = 0;
        while i < n
            invariant
                i <= n == self.recent_colors.len(),
                kept@ == seq![color] + without(self.recent_colors@.take(i as int), color),
            decreases n - i,
        {
            let x = self.recent_colors[i];
            let ghost t = self.recent_colors@.take(i + 1);
            assert(t.drop_last() == self.recent_colors@.take(i as int));
            if x != color {
                kept.push(x);
            }
            i = i + 1;
        }
        assert(self.recent_colors@.take(n as int) == self.recent_colors@);
        if kept.len() > MAX_RECENT_COLORS {
            kept.truncate(MAX_RECENT_COLORS);
        }
        self.recent_colors = kept;
    }
}

/// `line`, a line end, and `rest`.
fn line_then(line: String, rest: &String) -> (r: String)
    ensures
        r@ == then_line(line@, rest@),
{
    proof {
        reveal_strlit("\n");
    }
    assert("\n"@ == seq!['\n']);
    let mut line = line;
    line.append("\n");
    line.append(rest.as_str());
    line
}

/// `prefix` followed by `value`.
fn setting_line_str(prefix: &str, value: &str) -> (r: String)
    ensures
        r@ == prefix@ + value@,
{
    let mut r = prefix.to_owned();
    r.append(value);
    r
}

/// `true` or `false`.
fn bool_str(b: bool) -> (s: &'static str)
    ensures
        s@ == bool_word(b),
{
    proof {
        reveal_strlit("true");
        reveal_strlit("false");
    }
    if b {
        "true"
    } else {
        "false"
    }
}

/// Appends the colors' `#RRGGBB` texts joined by commas.
fn push_colors_text(s: &mut String, cs: &Vec<RgbColor>)
    ensures
        final(s)@ == old(s)@ + colors_text(cs@),
{
    proof {
        reveal_strlit(",");
    }
    let ghost before = s@;
    let n = cs.len();
    let mut i: usize = 0;
    while i < n
        invariant
            i <= n == cs.len(),
            s@ == before + colors_text(cs@.take(i as int)),
        decreases n - i,
    {
        let ghost prev = s@;
        if i > 0 {
            s.append(",");
        }
        let hex = cs[i].to_hex();
        s.append(hex.as_str());
        proof {
            reveal_strlit(",");
            assert(","@ == seq![',']);
            assert(colors_text(seq![cs@[i as int]]) == hex_string(cs@[i as int]));
            if i > 0 {
                lemma_colors_text_push(cs@.take(i as int), cs@[i as int]);
            } else {
                assert(cs@.take(1) == seq![cs@[0]]);
                assert(colors_text(cs@.take(0)).len() == 0);
            }
            assert(cs@.take(i + 1) == cs@.take(i as int).push(cs@[i as int]));
            assert(s@ =~= before + colors_text(cs@.take(i + 1)));
        }
        i = i + 1;
    }
    assert(cs@.take(n as int) == cs@);
}

/// Joining one more color.
pub proof fn lemma_colors_text_push(cs: Seq<RgbColor>, c: RgbColor)
    requires
        cs.len() > 0,
    ensures
        colors_text(cs.push(c)) == colors_text(cs) + seq![','] + hex_string(c),
    decreases cs.len(),
{
    let t = cs.push(c);
    assert(t[0] == cs[0]);
    if cs.len() == 1 {
        assert(t.drop_first() == seq![c]);
        assert(colors_text(seq![c]) == hex_string(c));
        assert(colors_text(t) == hex_string(cs[0]) + seq![','] + hex_string(c));
        assert(colors_text(cs) == hex_string(cs[0]));
    } else {
        lemma_colors_text_push(cs.drop_first(), c);
        assert(t.drop_first() == cs.drop_first().push(c));
        assert(colors_text(t) =~= colors_text(cs) + seq![','] + hex_string(c));
    }
}

/// The characters of setting names.
pub open spec fn is_key_char(c: char) -> bool {
    ('a' <= c && c <= 'z') || c == '_'
}

/// The characters of a written color list.
pub open spec fn is_color_text_char(c: char) -> bool {
    c == '#' || c == ',' || ('0' <= c && c <= '9') || ('A' <= c && c <= 'F')
}

/// The `#RRGGBB` text of a color has only hex digits after the `#`.
proof fn lemma_hex_string_chars(c: RgbColor)
    ensures
        hex_string(c).len() == 7,
        hex_string(c)[0] == '#',
        forall|i: int| 1 <= i < 7 ==> ('0' <= #[trigger] hex_string(c)[i] && hex_string(c)[i] <= '9')
            || ('A' <= hex_string(c)[i] && hex_string(c)[i] <= 'F'),
{
    lemma_hex_char(c.r as int / 16);
    lemma_hex_char(c.r as int % 16);
    lemma_hex_char(c.g as int / 16);
    lemma_hex_char(c.g as int % 16);
    lemma_hex_char(c.b as int / 16);
    lemma_hex_char(c.b as int % 16);
}

/// A written color list starts with `#`, ends with a hex digit and holds
/// only `#`, `,` and hex digits.
proof fn lemma_colors_text_chars(cs: Seq<RgbColor>)
    requires
        cs.len() > 0,
    ensures
        colors_text(cs).len() > 0,
        colors_text(cs)[0] == '#',
        ('0' <= colors_text(cs).last() && colors_text(cs).last() <= '9') || ('A' <= colors_text(
            cs,
        ).last() && colors_text(cs).last() <= 'F'),
        forall|i: int| 0 <= i < colors_text(cs).len() ==> is_color_text_char(
            #[trigger] colors_text(cs)[i],
        ),
    decreases cs.len(),
{
    lemma_hex_string_chars(cs[0]);
    if cs.len() > 1 {
        lemma_colors_text_chars(cs.drop_first());
        let h = hex_string(cs[0]);
        let t = colors_text(cs.drop_first());
        let all = h + seq![','] + t;
        assert(colors_text(cs) == all);
        assert forall|i: int| 0 <= i < all.len() implies is_color_text_char(#[trigger] all[i]) by {
            if i < 7 {
                assert(all[i] == h[i]);
            } else if i > 7 {
                assert(all[i] == t[i - 8]);
            }
        }
        assert(all.last() == t.last());
    }
}

/// The pieces of a written color list read back as the colors, and none of
/// them splits a character.
proof fn lemma_color_list_round_trip(cs: Seq<RgbColor>)
    requires
        cs.len() > 0,
    ensures
        color_list(colors_text(cs)) == cs,
        !pieces_split_char(split_on(colors_text(cs), ',')),
    decreases cs.len(),
{
    let h = hex_string(cs[0]);
    lemma_hex_string_chars(cs[0]);
    lemma_hex_round_trip(cs[0]);
    if cs.len() == 1 {
        lemma_split_on_last(h, ',');
        let ps = split_on(colors_text(cs), ',');
        assert(ps == seq![h]);
        assert(ps.drop_first().len() == 0);
        assert(!pieces_split_char(ps.drop_first()));
        assert(parse_colors(ps.drop_first()).len() == 0);
        assert(parse_colors(ps) =~= seq![cs[0]]);
        assert(cs =~= seq![cs[0]]);
    } else {
        lemma_color_list_round_trip(cs.drop_first());
        let t = colors_text(cs.drop_first());
        let all = h + seq![','] + t;
        assert(colors_text(cs) == all);
        assert(all[7] == ',');
        assert forall|j: int| 0 <= j < 7 implies all[j] != ',' by {
            assert(all[j] == h[j]);
        }
        lemma_split_on_step(all, ',', 7);
        assert(all.take(7) == h);
        assert(all.skip(8) == t);
        let ps = split_on(all, ',');
        assert(ps[0] == h);
        assert(ps.drop_first() == split_on(t, ','));
        assert(!pieces_split_char(ps.drop_first()));
        assert(parse_colors(ps) == seq![cs[0]] + cs.drop_first());
        assert(cs =~= seq![cs[0]] + cs.drop_first());
    }
}

/// Peeling the first line off a text.
proof fn lemma_lines_step(cfg: ConfigView, a: Seq<char>, b: Seq<char>)
    requires
        forall|i: int| 0 <= i < a.len() ==> a[i] != '\n',
    ensures
        apply_lines(cfg, split_on(then_line(a, b), '\n')) == apply_lines(
            apply_line(cfg, a),
            split_on(b, '\n'),
        ),
        lines_split_char(split_on(then_line(a, b), '\n')) == (line_splits_char(a)
            || lines_split_char(split_on(b, '\n'))),
{
    let s = then_line(a, b);
    assert(s[a.len() as int] == '\n');
    assert forall|j: int| 0 <= j < a.len() implies s[j] != '\n' by {
        assert(s[j] == a[j]);
    }
    lemma_split_on_step(s, '\n', a.len() as int);
    assert(s.take(a.len() as int) == a);
    assert(s.skip(a.len() as int + 1) == b);
    let ls = split_on(s, '\n');
    assert(ls[0] == a);
    assert(ls.drop_first() == split_on(b, '\n'));
}

/// A `key=value` line with a plain key and a trimmed value is read as that
/// setting.
proof fn lemma_setting_line(cfg: ConfigView, k: Seq<char>, v: Seq<char>)
    requires
        k.len() > 0,
        forall|i: int| 0 <= i < k.len() ==> is_key_char(#[trigger] k[i]),
        trim(v) == v,
        forall|i: int| 0 <= i < v.len() ==> v[i] != '\n',
    ensures
        forall|i: int| 0 <= i < setting_text(k, v).len() ==> #[trigger] setting_text(k, v)[i]
            != '\n',
        apply_line(cfg, setting_text(k, v)) == apply_setting(cfg, k, v),
        line_splits_char(setting_text(k, v)) == (k == key_recent_colors() && pieces_split_char(
            split_on(v, ','),
        )),
{
    let line = setting_text(k, v);
    assert forall|i: int| 0 <= i < line.len() implies #[trigger] line[i] != '\n' by {
        if i < k.len() {
            assert(line[i] == k[i]);
        } else if i > k.len() {
            assert(line[i] == v[i - k.len() - 1]);
        }
    }
    assert(line[0] == k[0]);
    if v.len() > 0 {
        assert(line.last() == v.last());
        lemma_trimmed_ends(v);
    }
    lemma_trim_id(line);
    lemma_trim_id(k);
    assert forall|j: int| 0 <= j < k.len() implies line[j] != '=' by {
        assert(line[j] == k[j]);
    }
    lemma_first_pos_char(line, '=', k.len() as int);
    assert(line.take(k.len() as int) == k);
    assert(line.skip(k.len() as int + 1) == v);
}

/// A setting line followed by more text: the setting is applied, then the
/// rest is read.
proof fn lemma_setting_then(cfg: ConfigView, k: Seq<char>, v: Seq<char>, rest: Seq<char>)
    requires
        k.len() > 0,
        forall|i: int| 0 <= i < k.len() ==> is_key_char(#[trigger] k[i]),
        trim(v) == v,
        forall|i: int| 0 <= i < v.len() ==> v[i] != '\n',
        k == key_recent_colors() ==> !pieces_split_char(split_on(v, ',')),
    ensures
        apply_lines(cfg, split_on(then_line(setting_text(k, v), rest), '\n')) == apply_lines(
            apply_setting(cfg, k, v),
            split_on(rest, '\n'),
        ),
        lines_split_char(split_on(then_line(setting_text(k, v), rest), '\n')) == lines_split_char(
            split_on(rest, '\n'),
        ),
{
    lemma_setting_line(cfg, k, v);
    lemma_lines_step(cfg, setting_text(k, v), rest);
}

proof fn lemma_apply_language(cfg: ConfigView, l: Language)
    ensures
        apply_setting(cfg, key_language(), code_of(l)) == (ConfigView { language: l, ..cfg }),
{
    lemma_code_round_trip(l);
}

proof fn lemma_apply_hotkey_mod(cfg: ConfigView, m: u32)
    ensures
        apply_setting(cfg, key_hotkey_mod(), dec_string(m as nat)) == (ConfigView {
            hotkey_mod: m,
            ..cfg
        }),
{
    lemma_dec_string(m as nat);
    assert(unsigned_digits(dec_string(m as nat)) == dec_string(m as nat));
    assert(parse_u32(dec_string(m as nat)) == Some(m));
}

proof fn lemma_apply_hotkey_vk(cfg: ConfigView, m: u32)
    ensures
        apply_setting(cfg, key_hotkey_vk(), dec_string(m as nat)) == (ConfigView {
            hotkey_vk: m,
            ..cfg
        }),
{
    lemma_dec_string(m as nat);
    assert(unsigned_digits(dec_string(m as nat)) == dec_string(m as nat));
    assert(parse_u32(dec_string(m as nat)) == Some(m));
}

proof fn lemma_apply_hotkey_name(cfg: ConfigView, name: Seq<char>)
    requires
        name.len() > 0,
    ensures
        apply_setting(cfg, key_hotkey_name(), name) == (ConfigView { hotkey_name: name, ..cfg }),
{
}

proof fn lemma_apply_run_on_startup(cfg: ConfigView, b: bool)
    ensures
        apply_setting(cfg, key_run_on_startup(), bool_word(b)) == (ConfigView {
            run_on_startup: b,
            ..cfg
        }),
{
    assert(key_run_on_startup()[0] != key_show_tray_icon()[0]);
}

proof fn lemma_apply_show_tray_icon(cfg: ConfigView, b: bool)
    ensures
        apply_setting(cfg, key_show_tray_icon(), bool_word(b)) == (ConfigView {
            show_tray_icon: b,
            ..cfg
        }),
{
    assert(key_run_on_startup()[0] != key_show_tray_icon()[0]);
}

/// The values other than the colors that a written settings file holds are
/// trimmed, and its numbers hold no line end.
proof fn lemma_written_values_scalars(c: ConfigView)
    ensures
        trim(code_of(c.language)) == code_of(c.language),
        trim(dec_string(c.hotkey_mod as nat)) == dec_string(c.hotkey_mod as nat),
        trim(dec_string(c.hotkey_vk as nat)) == dec_string(c.hotkey_vk as nat),
        trim(bool_word(c.run_on_startup)) == bool_word(c.run_on_startup),
        trim(bool_word(c.show_tray_icon)) == bool_word(c.show_tray_icon),
        forall|i: int| 0 <= i < dec_string(c.hotkey_mod as nat).len() ==> #[trigger] dec_string(
            c.hotkey_mod as nat,
        )[i] != '\n',
        forall|i: int| 0 <= i < dec_string(c.hotkey_vk as nat).len() ==> #[trigger] dec_string(
            c.hotkey_vk as nat,
        )[i] != '\n',
{
    let v2 = dec_string(c.hotkey_mod as nat);
    let v3 = dec_string(c.hotkey_vk as nat);
    lemma_trim_id(code_of(c.language));
    lemma_dec_string(c.hotkey_mod as nat);
    lemma_dec_string(c.hotkey_vk as nat);
    assert(is_digit(v2[0]) && is_digit(v2.last()));
    assert(is_digit(v3[0]) && is_digit(v3.last()));
    lemma_trim_id(v2);
    lemma_trim_id(v3);
    lemma_trim_id(bool_word(c.run_on_startup));
    lemma_trim_id(bool_word(c.show_tray_icon));
    assert forall|i: int| 0 <= i < v2.len() implies #[trigger] v2[i] != '\n' by {
        assert(is_digit(v2[i]));
    }
    assert forall|i: int| 0 <= i < v3.len() implies #[trigger] v3[i] != '\n' by {
        assert(is_digit(v3[i]));
    }
}

/// The colors value that a written settings file holds is trimmed and
/// holds no line end.
proof fn lemma_written_colors(cs: Seq<RgbColor>)
    requires
        cs.len() > 0,
    ensures
        trim(colors_text(cs)) == colors_text(cs),
        forall|i: int| 0 <= i < colors_text(cs).len() ==> #[trigger] colors_text(cs)[i] != '\n',
{
    let v7 = colors_text(cs);
    lemma_colors_text_chars(cs);
    lemma_trim_id(v7);
    assert forall|i: int| 0 <= i < v7.len() implies #[trigger] v7[i] != '\n' by {
        assert(is_color_text_char(v7[i]));
    }
}

/// The section header line and the empty piece after the last line end
/// change nothing.
proof fn lemma_header_and_end(cfg: ConfigView, rest: Seq<char>)
    ensures
        apply_lines(cfg, split_on(then_line(section_header(), rest), '\n')) == apply_lines(
            cfg,
            split_on(rest, '\n'),
        ),
        lines_split_char(split_on(then_line(section_header(), rest), '\n')) == lines_split_char(
            split_on(rest, '\n'),
        ),
        apply_lines(cfg, split_on(Seq::empty(), '\n')) == cfg,
        !lines_split_char(split_on(Seq::empty(), '\n')),
{
    let h = section_header();
    lemma_trim_id(h);
    lemma_first_pos_char(h, '=', h.len() as int);
    assert(apply_line(cfg, h) == cfg);
    assert(!line_splits_char(h));
    lemma_lines_step(cfg, h, rest);
    let e: Seq<char> = Seq::empty();
    lemma_split_on_last(e, '\n');
    lemma_trim_id(e);
    assert(apply_line(cfg, e) == cfg);
    let ls = split_on(e, '\n');
    assert(ls == seq![e]);
    assert(ls[0] == e);
    assert(ls.drop_first().len() == 0);
    assert(apply_lines(cfg, ls) == apply_lines(apply_line(cfg, ls[0]), ls.drop_first()));
    assert(lines_split_char(ls) == (line_splits_char(ls[0]) || lines_split_char(ls.drop_first())));
}

/// A `recent_colors` value that is trimmed, holds no line end, names the
/// colors `cs` (at least one) and splits no character when read.
pub open spec fn colors_value_ok(colors: Seq<char>, cs: Seq<RgbColor>) -> bool {
    &&& cs.len() > 0
    &&& trim(colors) == colors
    &&& forall|i: int| 0 <= i < colors.len() ==> colors[i] != '\n'
    &&& color_list(colors) == cs
    &&& !pieces_split_char(split_on(colors, ','))
}

/// The lines of a written settings file from the `recent_colors` line on.
pub open spec fn lines_from_colors(c: ConfigView, colors: Seq<char>) -> Seq<char> {
    then_line(setting_text(key_recent_colors(), colors), Seq::empty())
}

/// ... from the `show_tray_icon` line on.
pub open spec fn lines_from_tray(c: ConfigView, colors: Seq<char>) -> Seq<char> {
    then_line(setting_text(key_show_tray_icon(), bool_word(c.show_tray_icon)), lines_from_colors(c, colors))
}

/// ... from the `run_on_startup` line on.
pub open spec fn lines_from_startup(c: ConfigView, colors: Seq<char>) -> Seq<char> {
    then_line(setting_text(key_run_on_startup(), bool_word(c.run_on_startup)), lines_from_tray(c, colors))
}

/// ... from the `hotkey_name` line on.
pub open spec fn lines_from_name(c: ConfigView, colors: Seq<char>) -> Seq<char> {
    then_line(setting_text(key_hotkey_name(), c.hotkey_name), lines_from_startup(c, colors))
}

/// ... from the `hotkey_vk` line on.
pub open spec fn lines_from_vk(c: ConfigView, colors: Seq<char>) -> Seq<char> {
    then_line(setting_text(key_hotkey_vk(), dec_string(c.hotkey_vk as nat)), lines_from_name(c, colors))
}

/// ... from the `hotkey_mod` line on.
pub open spec fn lines_from_mod(c: ConfigView, colors: Seq<char>) -> Seq<char> {
    then_line(setting_text(key_hotkey_mod(), dec_string(c.hotkey_mod as nat)), lines_from_vk(c, colors))
}

/// ... from the `language` line on.
pub open spec fn lines_from_language(c: ConfigView, colors: Seq<char>) -> Seq<char> {
    then_line(setting_text(key_language(), code_of(c.language)), lines_from_mod(c, colors))
}

/// Reading the written lines from the `recent_colors` line on.
pub(crate) proof fn lemma_read_colors(cfg: ConfigView, c: ConfigView, colors: Seq<char>)
    requires
        colors_value_ok(colors, c.recent_colors),
    ensures
        ({
            let r = apply_lines(cfg, split_on(lines_from_colors(c, colors), '\n'));
            &&& r.recent_colors == c.recent_colors
            &&& r.language == cfg.language && r.hotkey_mod == cfg.hotkey_mod
            &&& r.hotkey_vk == cfg.hotkey_vk && r.hotkey_name == cfg.hotkey_name
            &&& r.run_on_startup == cfg.run_on_startup && r.show_tray_icon == cfg.show_tray_icon
        }),
        !lines_split_char(split_on(lines_from_colors(c, colors), '\n')),
{
    lemma_setting_then(cfg, key_recent_colors(), colors, Seq::empty());
    lemma_header_and_end(ConfigView { recent_colors: c.recent_colors, ..cfg }, Seq::empty());
}

/// Reading the written lines from the `show_tray_icon` line on.
pub(crate) proof fn lemma_read_tray(cfg: ConfigView, c: ConfigView, colors: Seq<char>)
    requires
        colors_value_ok(colors, c.recent_colors),
    ensures
        ({
            let r = apply_lines(cfg, split_on(lines_from_tray(c, colors), '\n'));
            &&& r.recent_colors == c.recent_colors && r.show_tray_icon == c.show_tray_icon
            &&& r.language == cfg.language && r.hotkey_mod == cfg.hotkey_mod
            &&& r.hotkey_vk == cfg.hotkey_vk && r.hotkey_name == cfg.hotkey_name
            &&& r.run_on_startup == cfg.run_on_startup
        }),
        !lines_split_char(split_on(lines_from_tray(c, colors), '\n')),
{
    lemma_written_values_scalars(c);
    lemma_setting_then(cfg, key_show_tray_icon(), bool_word(c.show_tray_icon), lines_from_colors(c, colors));
    lemma_apply_show_tray_icon(cfg, c.show_tray_icon);
    lemma_read_colors(ConfigView { show_tray_icon: c.show_tray_icon, ..cfg }, c, colors);
}

/// Reading the written lines from the `run_on_startup` line on.
pub(crate) proof fn lemma_read_startup(cfg: ConfigView, c: ConfigView, colors: Seq<char>)
    requires
        colors_value_ok(colors, c.recent_colors),
    ensures
        ({
            let r = apply_lines(cfg, split_on(lines_from_startup(c, colors), '\n'));
            &&& r.recent_colors == c.recent_colors && r.show_tray_icon == c.show_tray_icon
            &&& r.run_on_startup == c.run_on_startup
            &&& r.language == cfg.language && r.hotkey_mod == cfg.hotkey_mod
            &&& r.hotkey_vk == cfg.hotkey_vk && r.hotkey_name == cfg.hotkey_name
        }),
        !lines_split_char(split_on(lines_from_startup(c, colors), '\n')),
{
    lemma_written_values_scalars(c);
    lemma_setting_then(cfg, key_run_on_startup(), bool_word(c.run_on_startup), lines_from_tray(c, colors));
    lemma_apply_run_on_startup(cfg, c.run_on_startup);
    lemma_read_tray(ConfigView { run_on_startup: c.run_on_startup, ..cfg }, c, colors);
}

/// Reading the written lines from the `hotkey_name` line on.
pub(crate) proof fn lemma_read_name(cfg: ConfigView, c: ConfigView, colors: Seq<char>)
    requires
        colors_value_ok(colors, c.recent_colors),
        c.hotkey_name.len() > 0,
        trim(c.hotkey_name) == c.hotkey_name,
        forall|i: int| 0 <= i < c.hotkey_name.len() ==> c.hotkey_name[i] != '\n',
    ensures
        ({
            let r = apply_lines(cfg, split_on(lines_from_name(c, colors), '\n'));
            &&& r.recent_colors == c.recent_colors && r.show_tray_icon == c.show_tray_icon
            &&& r.run_on_startup == c.run_on_startup && r.hotkey_name == c.hotkey_name
            &&& r.language == cfg.language && r.hotkey_mod == cfg.hotkey_mod
            &&& r.hotkey_vk == cfg.hotkey_vk
        }),
        !lines_split_char(split_on(lines_from_name(c, colors), '\n')),
{
    lemma_setting_then(cfg, key_hotkey_name(), c.hotkey_name, lines_from_startup(c, colors));
    lemma_apply_hotkey_name(cfg, c.hotkey_name);
    lemma_read_startup(ConfigView { hotkey_name: c.hotkey_name, ..cfg }, c, colors);
}

/// Reading the written lines from the `hotkey_vk` line on.
pub(crate) proof fn lemma_read_vk(cfg: ConfigView, c: ConfigView, colors: Seq<char>)
    requires
        colors_value_ok(colors, c.recent_colors),
        c.hotkey_name.len() > 0,
        trim(c.hotkey_name) == c.hotkey_name,
        forall|i: int| 0 <= i < c.hotkey_name.len() ==> c.hotkey_name[i] != '\n',
    ensures
        ({
            let r = apply_lines(cfg, split_on(lines_from_vk(c, colors), '\n'));
            &&& r.recent_colors == c.recent_colors && r.show_tray_icon == c.show_tray_icon
            &&& r.run_on_startup == c.run_on_startup && r.hotkey_name == c.hotkey_name
            &&& r.hotkey_vk == c.hotkey_vk
            &&& r.language == cfg.language && r.hotkey_mod == cfg.hotkey_mod
        }),
        !lines_split_char(split_on(lines_from_vk(c, colors), '\n')),
{
    lemma_written_values_scalars(c);
    lemma_setting_then(cfg, key_hotkey_vk(), dec_string(c.hotkey_vk as nat), lines_from_name(c, colors));
    lemma_apply_hotkey_vk(cfg, c.hotkey_vk);
    lemma_read_name(ConfigView { hotkey_vk: c.hotkey_vk, ..cfg }, c, colors);
}

/// Reading the written lines from the `hotkey_mod` line on.
pub(crate) proof fn lemma_read_mod(cfg: ConfigView, c: ConfigView, colors: Seq<char>)
    requires
        colors_value_ok(colors, c.recent_colors),
        c.hotkey_name.len() > 0,
        trim(c.hotkey_name) == c.hotkey_name,
        forall|i: int| 0 <= i < c.hotkey_name.len() ==> c.hotkey_name[i] != '\n',
    ensures
        ({
            let r = apply_lines(cfg, split_on(lines_from_mod(c, colors), '\n'));
            &&& r.recent_colors == c.recent_colors && r.show_tray_icon == c.show_tray_icon
            &&& r.run_on_startup == c.run_on_startup && r.hotkey_name == c.hotkey_name
            &&& r.hotkey_vk == c.hotkey_vk && r.hotkey_mod == c.hotkey_mod
            &&& r.language == cfg.language
        }),
        !lines_split_char(split_on(lines_from_mod(c, colors), '\n')),
{
    lemma_written_values_scalars(c);
    lemma_setting_then(cfg, key_hotkey_mod(), dec_string(c.hotkey_mod as nat), lines_from_vk(c, colors));
    lemma_apply_hotkey_mod(cfg, c.hotkey_mod);
    lemma_read_vk(ConfigView { hotkey_mod: c.hotkey_mod, ..cfg }, c, colors);
}

/// Law: a settings file written from settings reads back as the same
/// settings, and reading it splits no character, when the hotkey name is
/// non-empty, has no line end and no white space at either end, and there
/// is at least one recent color.
pub proof fn lemma_config_round_trip(c: ConfigView)
    requires
        c.hotkey_name.len() > 0,
        trim(c.hotkey_name) == c.hotkey_name,
        forall|i: int| 0 <= i < c.hotkey_name.len() ==> c.hotkey_name[i] != '\n',
        c.recent_colors.len() > 0,
    ensures
        !config_text_splits_char(config_text(c)),
        parse_config(config_text(c)) == c,
{
    let colors = colors_text(c.recent_colors);
    lemma_written_colors(c.recent_colors);
    lemma_color_list_round_trip(c.recent_colors);
    assert(colors_value_ok(colors, c.recent_colors));
    assert(config_text(c) == then_line(section_header(), lines_from_language(c, colors)));
    lemma_read_all(default_config(), c, colors);
}

/// Reading a written settings file's lines after the header sets every
/// setting.
pub(crate) proof fn lemma_read_all(cfg: ConfigView, c: ConfigView, colors: Seq<char>)
    requires
        colors_value_ok(colors, c.recent_colors),
        c.hotkey_name.len() > 0,
        trim(c.hotkey_name) == c.hotkey_name,
        forall|i: int| 0 <= i < c.hotkey_name.len() ==> c.hotkey_name[i] != '\n',
    ensures
        apply_lines(cfg, split_on(then_line(section_header(), lines_from_language(c, colors)), '\n'))
            == c,
        !lines_split_char(split_on(then_line(section_header(), lines_from_language(c, colors)), '\n')),
{
    lemma_header_and_end(cfg, lines_from_language(c, colors));
    lemma_written_values_scalars(c);
    lemma_setting_then(cfg, key_language(), code_of(c.language), lines_from_mod(c, colors));
    lemma_apply_language(cfg, c.language);
    lemma_read_mod(ConfigView { language: c.language, ..cfg }, c, colors);
    assert(apply_lines(cfg, split_on(then_line(section_header(), lines_from_language(c, colors)), '\n'))
        =~= c);
}

/// Law: the tray switch reads as the start-up switch does: a
/// `show_tray_icon` value turns the icon on exactly when it is `true` or
/// `1`, whatever it was before, and leaves every other setting alone.
pub proof fn lemma_tray_switch_reads(cfg: ConfigView, v: Seq<char>)
    ensures
        apply_setting(cfg, key_show_tray_icon(), v) == (ConfigView {
            show_tray_icon: v == "true"@ || v == "1"@,
            ..cfg
        }),
        apply_setting(cfg, key_show_tray_icon(), v).show_tray_icon == apply_setting(
            cfg,
            key_run_on_startup(),
            v,
        ).run_on_startup,
        apply_setting(cfg, key_run_on_startup(), v) == (ConfigView {
            run_on_startup: v == "true"@ || v == "1"@,
            ..cfg
        }),
{
    reveal_strlit("true");
    reveal_strlit("1");
    assert(key_show_tray_icon() != key_language());
    assert(key_show_tray_icon() != key_hotkey_mod());
    assert(key_show_tray_icon() != key_hotkey_vk());
    assert(key_show_tray_icon() != key_hotkey_name());
    assert(key_show_tray_icon() != key_run_on_startup());
    assert(key_run_on_startup() != key_language());
    assert(key_run_on_startup() != key_hotkey_mod());
    assert(key_run_on_startup() != key_hotkey_vk());
    assert(key_run_on_startup() != key_hotkey_name());
    assert("true"@ == word_true());
    assert("1"@ == seq!['1']);
}

/// No color occurs twice.
pub open spec fn no_repeats(s: Seq<RgbColor>) -> bool {
    forall|i: int, j: int| 0 <= i < j < s.len() ==> s[i] != s[j]
}

/// What `without` keeps comes from the list and is not the removed color.
proof fn lemma_without_members(list: Seq<RgbColor>, c: RgbColor)
    ensures
        forall|i: int| 0 <= i < without(list, c).len() ==> #[trigger] without(list, c)[i] != c
            && list.contains(without(list, c)[i]),
        without(list, c).len() <= list.len(),
    decreases list.len(),
{
    if list.len() > 0 {
        lemma_without_members(list.drop_last(), c);
        let w = without(list.drop_last(), c);
        assert forall|i: int| 0 <= i < without(list, c).len() implies #[trigger] without(
            list,
            c,
        )[i] != c && list.contains(without(list, c)[i]) by {
            if i < w.len() {
                assert(without(list, c)[i] == w[i]);
                let k = choose|k: int| 0 <= k < list.drop_last().len() && list.drop_last()[k] == w[i];
                assert(list[k] == w[i]);
            } else {
                assert(list[list.len() - 1] == list.last());
            }
        }
    }
}

/// A list without the color is left alone by `without`.
proof fn lemma_without_absent(list: Seq<RgbColor>, c: RgbColor)
    requires
        !list.contains(c),
    ensures
        without(list, c) == list,
    decreases list.len(),
{
    if list.len() > 0 {
        assert(!list.drop_last().contains(c)) by {
            if list.drop_last().contains(c) {
                let k = choose|k: int| 0 <= k < list.drop_last().len() && list.drop_last()[k] == c;
                assert(list[k] == c);
            }
        }
        lemma_without_absent(list.drop_last(), c);
        assert(list.last() != c) by {
            assert(list[list.len() - 1] == list.last());
        }
        assert(list.drop_last().push(list.last()) == list);
    }
}

/// Removing a color from a list that starts with it removes the start too.
proof fn lemma_without_front(list: Seq<RgbColor>, c: RgbColor)
    ensures
        without(seq![c] + list, c) == without(list, c),
    decreases list.len(),
{
    let l = seq![c] + list;
    if list.len() == 0 {
        assert(l.drop_last().len() == 0);
        assert(l.last() == c);
        assert(without(l.drop_last(), c) == l.drop_last());
        assert(without(l, c).len() == 0);
        assert(without(list, c) == list);
    } else {
        lemma_without_front(list.drop_last(), c);
        assert(l.drop_last() == seq![c] + list.drop_last());
        assert(l.last() == list.last());
        assert(without(l, c) == without(list, c));
    }
}

/// `without` keeps a list without repeats free of repeats.
proof fn lemma_without_no_repeats(list: Seq<RgbColor>, c: RgbColor)
    requires
        no_repeats(list),
    ensures
        no_repeats(without(list, c)),
    decreases list.len(),
{
    if list.len() > 0 {
        let l = list.drop_last();
        assert(no_repeats(l)) by {
            assert forall|i: int, j: int| 0 <= i < j < l.len() implies l[i] != l[j] by {
                assert(l[i] == list[i] && l[j] == list[j]);
            }
        }
        lemma_without_no_repeats(l, c);
        lemma_without_members(l, c);
        let w = without(l, c);
        if list.last() != c {
            assert forall|i: int, j: int| 0 <= i < j < w.push(list.last()).len() implies w.push(
                list.last(),
            )[i] != w.push(list.last())[j] by {
                if j == w.len() {
                    assert(w.push(list.last())[i] == w[i]);
                    assert(l.contains(w[i]));
                    let k = choose|k: int| 0 <= k < l.len() && l[k] == w[i];
                    assert(list[k] == w[i]);
                    assert(list[list.len() - 1] == list.last());
                }
            }
        }
    }
}

/// Law: after picking a color, the recent colors start with it, hold it
/// nowhere else, hold at most [`MAX_RECENT_COLORS`] colors, hold only colors
/// that were there before or the picked one, and repeat no color when the
/// list did not before.
pub proof fn lemma_recent_after_pick(list: Seq<RgbColor>, c: RgbColor)
    ensures
        ({
            let r = recent_after_pick(list, c);
            &&& r.len() > 0
            &&& r[0] == c
            &&& forall|i: int| 1 <= i < r.len() ==> #[trigger] r[i] != c && list.contains(r[i])
            &&& r.len() <= MAX_RECENT_COLORS
            &&& r.len() == if without(list, c).len() + 1 > MAX_RECENT_COLORS {
                MAX_RECENT_COLORS as int
            } else {
                without(list, c).len() + 1int
            }
            &&& no_repeats(list) ==> no_repeats(r)
        }),
{
    let w = without(list, c);
    let l = seq![c] + w;
    let r = recent_after_pick(list, c);
    lemma_without_members(list, c);
    assert forall|i: int| 1 <= i < r.len() implies #[trigger] r[i] != c && list.contains(r[i]) by {
        assert(r[i] == l[i]);
        assert(l[i] == w[i - 1]);
    }
    if no_repeats(list) {
        lemma_without_no_repeats(list, c);
        assert forall|i: int, j: int| 0 <= i < j < r.len() implies r[i] != r[j] by {
            assert(r[i] == l[i] && r[j] == l[j]);
            if i > 0 {
                assert(l[i] == w[i - 1] && l[j] == w[j - 1]);
            }
        }
    }
}

/// Law: picking the same color twice leaves the recent colors as picking it
/// once does.
pub proof fn lemma_recent_pick_twice(list: Seq<RgbColor>, c: RgbColor)
    ensures
        recent_after_pick(recent_after_pick(list, c), c) == recent_after_pick(list, c),
{
    let r = recent_after_pick(list, c);
    let w = without(list, c);
    lemma_without_members(list, c);
    let tail = r.drop_first();
    assert(r == seq![c] + tail);
    assert(!tail.contains(c)) by {
        if tail.contains(c) {
            let k = choose|k: int| 0 <= k < tail.len() && tail[k] == c;
            assert(tail[k] == r[k + 1]);
            if r.len() > MAX_RECENT_COLORS {
                assert(r[k + 1] == (seq![c] + w)[k + 1]);
            }
            assert((seq![c] + w)[k + 1] == w[k]);
        }
    }
    lemma_without_front(tail, c);
    lemma_without_absent(tail, c);
    assert(without(r, c) == tail);
    assert(seq![c] + tail == r);
}

} // verus!
