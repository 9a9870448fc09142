//! The main window's state and the decisions behind its drawing and clicks:
//! where its buttons are, what a click hits, and the texts it shows.
use vstd::prelude::*;
use crate::color::{RgbColor, hex_string};
use crate::config::{recent_after_pick, ConfigView};
use crate::magnifier::MagnifierResult;
use crate::config::{AppConfig, MAX_RECENT_COLORS};
use crate::i18n::Language;
use crate::text::{dec_string, push_decimal};

verus! {

/// What the main window keeps between messages.
pub struct AppState {
    pub config: AppConfig,
    pub active_color: RgbColor,
    pub toast_visible: bool,
    pub toast_text: String,
    pub app_hwnd: isize,
    pub tray_active: bool,
}

impl AppState {
    /// Takes over the result of picking: a chosen color becomes the active
    /// color and goes first in the recent colors, and its `#RRGGBB` text is
    /// returned for the clipboard; otherwise nothing changes.
    pub fn apply_pick(&mut self, res: &MagnifierResult) -> (copy: Option<String>)
        ensures
            res.selected ==> {
                &&& final(self).active_color == res.color
                &&& final(self).config@ == (ConfigView {
                    recent_colors: recent_after_pick(old(self).config@.recent_colors, res.color),
                    ..old(self).config@
                })
                &&& copy matches Some(t) && t@ == hex_string(res.color)
            },
            !res.selected ==> copy is None && final(self).active_color == old(self).active_color
                && final(self).config@ == old(self).config@,
            final(self).toast_visible == old(self).toast_visible,
            final(self).toast_text@ == old(self).toast_text@,
            final(self).app_hwnd == old(self).app_hwnd,
            final(self).tray_active == old(self).tray_active,
    {
        if res.selected {
            self.active_color = res.color;
            self.config.add_recent_color(res.color);
            Some(res.color.to_hex())
        } else {
            None
        }
    }

    /// Switches the language of the window to the other one.
    pub fn switch_language(&mut self)
        ensures
            final(self).config@ == (ConfigView {
                language: other_language(old(self).config@.language),
                ..old(self).config@
            }),
            final(self).active_color == old(self).active_color,
            final(self).toast_visible == old(self).toast_visible,
            final(self).toast_text@ == old(self).toast_text@,
            final(self).app_hwnd == old(self).app_hwnd,
            final(self).tray_active == old(self).tray_active,
    {
        self.config.language = toggle_language(self.config.language);
    }

    /// Shows the notice that `copied` was copied, in the window's language.
    pub fn show_copy_notice(&mut self, notice: &str, copied: &str)
        ensures
            final(self).toast_visible,
            final(self).toast_text@ == with_detail(notice@, copied@),
            final(self).config@ == old(self).config@,
            final(self).active_color == old(self).active_color,
            final(self).app_hwnd == old(self).app_hwnd,
            final(self).tray_active == old(self).tray_active,
    {
        self.toast_text = toast_text(notice, copied);
        self.toast_visible = true;
    }
}

/// What to do with the tray icon after the settings changed.
#[derive(Debug, Clone, Copy, PartialEq, Eq, Structural)]
pub enum TrayChange {
    Add,
    Remove,
    Keep,
}

/// Adds the tray icon when it is wanted and missing, removes it when it is
/// there and no longer wanted, and otherwise leaves it.
pub fn tray_change(wanted: bool, active: bool) -> (c: TrayChange)
    ensures
        wanted && !active ==> c == TrayChange::Add,
        !wanted && active ==> c == TrayChange::Remove,
        wanted == active ==> c == TrayChange::Keep,
{
    if wanted && !active {
        TrayChange::Add
    } else if !wanted && active {
        TrayChange::Remove
    } else {
        TrayChange::Keep
    }
}

/// The window point of a mouse message: the low 16 bits of `lparam` are
/// the x coordinate, the next 16 bits the y coordinate.
pub fn click_point(lparam: isize) -> (p: (i32, i32))
    ensures
        p.0 == (lparam as u64) % 65536,
        p.1 == ((lparam as u64) / 65536) % 65536,
{
    let w = lparam as u64;
    let x = (w & 0xFFFF) as i32;
    let y = ((w >> 16) & 0xFFFF) as i32;
    assert((w & 0xFFFF) == w % 65536) by (bit_vector);
    assert(((w >> 16) & 0xFFFF) == (w / 65536) % 65536) by (bit_vector);
    (x, y)
}

/// A rectangle in window coordinates; both edges count as inside.
#[derive(Debug, Clone, Copy, PartialEq, Eq, Structural)]
pub struct Rect {
    pub left: i32,
    pub top: i32,
    pub right: i32,
    pub bottom: i32,
}

/// A clickable area of the main window and the action it stands for.
#[derive(Debug, Clone, Copy, PartialEq, Eq, Structural)]
pub struct RectButton {
    pub rect: Rect,
    pub action_id: u32,
}

/// The action of the language button.
pub const ACTION_LANGUAGE: u32 = 101;

/// The action of the paint guide button.
pub const ACTION_PAINT_GUIDE: u32 = 102;

/// The action of the settings button.
pub const ACTION_SETTINGS: u32 = 103;

/// The action of the copy-hex button.
pub const ACTION_COPY_HEX: u32 = 201;

/// The action of the copy-RGB button.
pub const ACTION_COPY_RGB: u32 = 202;

/// The action of the copy-red button.
pub const ACTION_COPY_RED: u32 = 301;

/// The action of the copy-green button.
pub const ACTION_COPY_GREEN: u32 = 302;

/// The action of the copy-blue button.
pub const ACTION_COPY_BLUE: u32 = 303;

/// The action of the big pick button.
pub const ACTION_PICK: u32 = 500;

/// The virtual-key code of the `C` key.
pub const VK_C: u32 = 0x43;

/// What a key pressed in the main window asks for: `Ctrl + C` copies the
/// hex code of the active color; any other key asks for nothing.
pub fn key_action(vk: u32, ctrl_held: bool) -> (r: Option<u32>)
    ensures
        r == (if ctrl_held && vk == VK_C {
            Some(ACTION_COPY_HEX)
        } else {
            None
        }),
{
    if ctrl_held && vk == VK_C {
        Some(ACTION_COPY_HEX)
    } else {
        None
    }
}

pub open spec fn button(left: i32, top: i32, right: i32, bottom: i32, action_id: u32) -> RectButton {
    RectButton { rect: Rect { left, top, right, bottom }, action_id }
}

/// The main window's buttons, in the order in which clicks are tested.
pub open spec fn ui_buttons() -> Seq<RectButton> {
    seq![
        button(340, 16, 380, 44, 101),
        button(390, 16, 430, 44, 102),
        button(440, 16, 480, 44, 103),
        button(340, 78, 480, 106, 201),
        button(340, 114, 480, 142, 202),
        button(240, 152, 315, 180, 301),
        button(325, 152, 400, 180, 302),
        button(410, 152, 480, 180, 303),
        button(20, 380, 480, 435, 500),
    ]
}

/// The main window's buttons; see [`ui_buttons`].
pub fn get_ui_buttons() -> (v: Vec<RectButton>)
    ensures
        v@ == ui_buttons(),
{
    let v = vec![
        RectButton { rect: Rect { left: 340, top: 16, right: 380, bottom: 44 }, action_id: 101 },
        RectButton { rect: Rect { left: 390, top: 16, right: 430, bottom: 44 }, action_id: 102 },
        RectButton { rect: Rect { left: 440, top: 16, right: 480, bottom: 44 }, action_id: 103 },
        RectButton { rect: Rect { left: 340, top: 78, right: 480, bottom: 106 }, action_id: 201 },
        RectButton { rect: Rect { left: 340, top: 114, right: 480, bottom: 142 }, action_id: 202 },
        RectButton { rect: Rect { left: 240, top: 152, right: 315, bottom: 180 }, action_id: 301 },
        RectButton { rect: Rect { left: 325, top: 152, right: 400, bottom: 180 }, action_id: 302 },
        RectButton { rect: Rect { left: 410, top: 152, right: 480, bottom: 180 }, action_id: 303 },
        RectButton { rect: Rect { left: 20, top: 380, right: 480, bottom: 435 }, action_id: 500 },
    ];
    assert(v@ =~= ui_buttons());
    v
}

/// Whether the point lies in the rectangle, edges included.
pub open spec fn contains_point(r: Rect, x: i32, y: i32) -> bool {
    r.left <= x && x <= r.right && r.top <= y && y <= r.bottom
}

/// The action of the first button that holds the point, if any.
pub open spec fn first_hit(buttons: Seq<RectButton>, x: i32, y: i32) -> Option<u32>
    decreases buttons.len(),
{
    if buttons.len() == 0 {
        None
    } else if contains_point(buttons[0].rect, x, y) {
        Some(buttons[0].action_id)
    } else {
        first_hit(buttons.drop_first(), x, y)
    }
}

/// The action of the button that a click at `(x, y)` hits, if any.
pub fn button_at(x: i32, y: i32) -> (r: Option<u32>)
    ensures
        r == first_hit(ui_buttons(), x, y),
{
    let buttons = get_ui_buttons();
    let mut i: usize = 0;
    assert(buttons@.skip(0) == buttons@);
    while i < buttons.len()
        invariant
            i <= buttons.len(),
            buttons@ == ui_buttons(),
            first_hit(ui_buttons(), x, y) == first_hit(buttons@.skip(i as int), x, y),
        decreases buttons.len() - i,
    {
        let b = buttons[i];
        assert(buttons@.skip(i as int)[0] == b);
        assert(buttons@.skip(i as int).drop_first() == buttons@.skip(i + 1));
        if b.rect.left <= x && x <= b.rect.right && b.rect.top <= y && y <= b.rect.bottom {
            return Some(b.action_id);
        }
        i = i + 1;
    }
    None
}

/// Left edge of the `i`-th recent color swatch.
pub open spec fn swatch_left(i: int) -> int {
    20 + 46 * i
}

/// Whether `(x, y)` falls on the `i`-th recent color swatch, as clicks are
/// tested (the band from 310 to 350, each swatch 38 wide).
pub open spec fn on_swatch(x: i32, y: i32, i: int) -> bool {
    310 <= y <= 350 && swatch_left(i) <= x <= swatch_left(i) + 38
}

/// Where the `i`-th recent color swatch is drawn: 38 pixels square from
/// [`swatch_left`] and 310.
pub fn recent_swatch_rect(i: usize) -> (r: Rect)
    requires
        i < MAX_RECENT_COLORS,
    ensures
        r.left == swatch_left(i as int),
        r.top == 310,
        r.right == swatch_left(i as int) + 38,
        r.bottom == 348,
{
    let left: i32 = 20 + (i as i32) * 46;
    Rect { left, top: 310, right: left + 38, bottom: 348 }
}

/// Which of the first `count` recent colors (at most
/// [`MAX_RECENT_COLORS`]) a click at `(x, y)` hits; the first such swatch.
pub fn recent_swatch_at(x: i32, y: i32, count: usize) -> (r: Option<usize>)
    ensures
        match r {
            Some(i) => i < count && i < MAX_RECENT_COLORS && on_swatch(x, y, i as int) && forall|
                j: int,
            | 0 <= j < i ==> !on_swatch(x, y, j),
            None => forall|j: int| 0 <= j < count && j < MAX_RECENT_COLORS ==> !on_swatch(x, y, j),
        },
{
    if !(y >= 310 && y <= 350) {
        return None;
    }
    let n = if count < MAX_RECENT_COLORS {
        count
    } else {
        MAX_RECENT_COLORS
    };
    let mut i: usize = 0;
    while i < n
        invariant
            i <= n <= MAX_RECENT_COLORS,
            n <= count,
            n == count || n == MAX_RECENT_COLORS,
            310 <= y <= 350,
            forall|j: int| 0 <= j < i ==> !on_swatch(x, y, j),
        decreases n - i,
    {
        let sx: i32 = 20 + (i as i32) * 46;
        if x >= sx && x <= sx + 38 {
            return Some(i);
        }
        i = i + 1;
    }
    None
}

/// `text ( detail )` without the spaces inside the brackets: the form of the
/// copy notice and of the pick button's caption.
pub open spec fn with_detail(text: Seq<char>, detail: Seq<char>) -> Seq<char> {
    text + " ("@ + detail + ")"@
}

/// Builds `text (detail)`; see [`with_detail`].
pub fn text_with_detail(text: &str, detail: &str) -> (s: String)
    ensures
        s@ == with_detail(text@, detail@),
{
    let mut s = text.to_owned();
    s.append(" (");
    s.append(detail);
    s.append(")");
    s
}

/// The notice shown after copying `copied`: the translated notice and the
/// copied text in brackets.
pub fn toast_text(notice: &str, copied: &str) -> (s: String)
    ensures
        s@ == with_detail(notice@, copied@),
{
    text_with_detail(notice, copied)
}

/// The hotkey as the pick button names it: its name, or `Alt + P` when the
/// name is empty.
pub open spec fn shown_hotkey(name: Seq<char>) -> Seq<char> {
    if name.len() == 0 {
        "Alt + P"@
    } else {
        name
    }
}

/// The caption of the big pick button: its label and the hotkey in brackets.
pub fn pick_button_label(label: &str, hotkey_name: &str) -> (s: String)
    ensures
        s@ == with_detail(label@, shown_hotkey(hotkey_name@)),
{
    if hotkey_name.is_empty() {
        text_with_detail(label, "Alt + P")
    } else {
        text_with_detail(label, hotkey_name)
    }
}

/// The other language.
pub open spec fn other_language(l: Language) -> Language {
    match l {
        Language::Turkish => Language::English,
        Language::English => Language::Turkish,
    }
}

/// The language that the language button switches to; see [`other_language`].
pub fn toggle_language(l: Language) -> (r: Language)
    ensures
        r == other_language(l),
{
    match l {
        Language::Turkish => Language::English,
        Language::English => Language::Turkish,
    }
}

/// The caption of the language button.
pub fn language_button_label(l: Language) -> (s: &'static str)
    ensures
        l == Language::Turkish ==> s@ == "TR"@,
        l == Language::English ==> s@ == "EN"@,
{
    if l == Language::Turkish {
        "TR"
    } else {
        "EN"
    }
}

/// The color shown at start: the first recent color, or blue
/// (`#3498DB`) when there is none.
pub fn initial_color(cfg: &AppConfig) -> (c: RgbColor)
    ensures
        cfg.recent_colors.len() > 0 ==> c == cfg.recent_colors@[0],
        cfg.recent_colors.len() == 0 ==> c == (RgbColor { r: 52, g: 152, b: 219 }),
{
    if cfg.recent_colors.len() > 0 {
        cfg.recent_colors[0]
    } else {
        RgbColor::new(52, 152, 219)
    }
}

/// The caption of a channel button: the channel's prefix (such as `R: `)
/// and its value in decimal.
pub fn channel_label(prefix: &str, value: u8) -> (s: String)
    ensures
        s@ == prefix@ + dec_string(value as nat),
{
    let mut s = prefix.to_owned();
    push_decimal(&mut s, value as u32);
    s
}

/// The decimal text of a channel value, as copied by the channel buttons.
pub fn channel_value_text(value: u8) -> (s: String)
    ensures
        s@ == dec_string(value as nat),
{
    let mut s = String::new();
    push_decimal(&mut s, value as u32);
    s
}

/// Law: the language button always changes the language, and pressing it
/// twice gives the language back.
pub proof fn lemma_toggle_twice(l: Language)
    ensures
        other_language(l) != l,
        other_language(other_language(l)) == l,
{
}

/// Law: a click anywhere on the drawn `i`-th recent swatch falls on that
/// swatch, and on no other.
pub proof fn lemma_drawn_swatch_is_clicked(i: int, x: i32, y: i32)
    requires
        0 <= i < MAX_RECENT_COLORS,
        swatch_left(i) <= x <= swatch_left(i) + 38,
        310 <= y <= 348,
    ensures
        on_swatch(x, y, i),
        forall|j: int| 0 <= j < MAX_RECENT_COLORS && j != i ==> !on_swatch(x, y, j),
{
}

/// Law: after the tray change is carried out, the icon is there exactly
/// when it is wanted.
pub proof fn lemma_tray_follows_setting(wanted: bool, active: bool, c: TrayChange)
    requires
        (wanted && !active ==> c == TrayChange::Add),
        (!wanted && active ==> c == TrayChange::Remove),
        (wanted == active ==> c == TrayChange::Keep),
    ensures
        (match c {
            TrayChange::Add => true,
            TrayChange::Remove => false,
            TrayChange::Keep => active,
        }) == wanted,
{
}

} // verus!
