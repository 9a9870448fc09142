//! The decisions of the loupe that follows the cursor while a color is
//! picked: what the keys ask for, and where the loupe window goes.
use vstd::prelude::*;
use crate::color::{RgbColor, rgb_string};
use crate::i18n::Language;

verus! {

/// Width of the loupe window.
pub const LOUPE_WIDTH: i32 = 180;

/// Height of the loupe window.
pub const LOUPE_HEIGHT: i32 = 250;

/// Gap between the cursor and the loupe window.
pub const LOUPE_GAP: i32 = 24;

/// How picking ended: whether a color was chosen, and the color under the
/// cursor at that moment.
pub struct MagnifierResult {
    pub selected: bool,
    pub color: RgbColor,
}

/// The keys and buttons that the loupe watches, `true` while held down.
#[derive(Debug, Clone, Copy, PartialEq, Eq, Structural)]
pub struct LoupeKeys {
    pub left_button: bool,
    pub space: bool,
    pub right_button: bool,
    pub escape: bool,
    pub arrow_left: bool,
    pub arrow_right: bool,
    pub arrow_up: bool,
    pub arrow_down: bool,
}

/// What the loupe does on one round of its loop.
#[derive(Debug, Clone, Copy, PartialEq, Eq, Structural)]
pub enum LoupeAction {
    /// Take the color under the cursor and close.
    Pick,
    /// Close without a color.
    Cancel,
    /// Move the cursor by one pixel, then follow it.
    Nudge(i32, i32),
    /// Follow the cursor.
    Follow,
}

/// What the held keys ask for: the left button or space picks, the right
/// button or escape cancels, otherwise the first held arrow (in the order
/// left, right, up, down) nudges the cursor.
pub open spec fn loupe_action_for(k: LoupeKeys) -> LoupeAction {
    if k.left_button || k.space {
        LoupeAction::Pick
    } else if k.right_button || k.escape {
        LoupeAction::Cancel
    } else if k.arrow_left {
        LoupeAction::Nudge(-1i32, 0)
    } else if k.arrow_right {
        LoupeAction::Nudge(1, 0)
    } else if k.arrow_up {
        LoupeAction::Nudge(0, -1i32)
    } else if k.arrow_down {
        LoupeAction::Nudge(0, 1)
    } else {
        LoupeAction::Follow
    }
}

/// Decides one round of the loupe; see [`loupe_action_for`].
pub fn loupe_action(k: LoupeKeys) -> (a: LoupeAction)
    ensures
        a == loupe_action_for(k),
{
    if k.left_button || k.space {
        LoupeAction::Pick
    } else if k.right_button || k.escape {
        LoupeAction::Cancel
    } else if k.arrow_left {
        LoupeAction::Nudge(-1, 0)
    } else if k.arrow_right {
        LoupeAction::Nudge(1, 0)
    } else if k.arrow_up {
        LoupeAction::Nudge(0, -1)
    } else if k.arrow_down {
        LoupeAction::Nudge(0, 1)
    } else {
        LoupeAction::Follow
    }
}

/// Whether a `GetAsyncKeyState` result says that the key is held down (its
/// most significant bit is set).
pub fn key_held(state: i16) -> (b: bool)
    ensures
        b == (state < 0),
{
    let b = (state as u16 & 0x8000) != 0;
    assert(((state as u16 & 0x8000) != 0) == (state < 0)) by (bit_vector);
    b
}

/// Where the loupe goes along one axis, for the cursor at `p` on a screen
/// `screen` long, the loupe being `size` long: past the cursor by the gap,
/// or before it when that would leave the screen, and never before 0.
pub open spec fn loupe_place(p: int, size: int, screen: int) -> int {
    let after = p + LOUPE_GAP;
    let placed = if after + size > screen {
        p - size - LOUPE_GAP
    } else {
        after
    };
    if placed < 0 {
        0
    } else {
        placed
    }
}

/// The top-left corner of the loupe window for the cursor at `(x, y)` on a
/// `screen_w` by `screen_h` screen; see [`loupe_place`].
pub fn loupe_position(x: i32, y: i32, screen_w: i32, screen_h: i32) -> (r: (i32, i32))
    requires
        x + LOUPE_GAP + LOUPE_WIDTH <= i32::MAX,
        x + LOUPE_GAP + LOUPE_WIDTH > screen_w ==> x - LOUPE_WIDTH - LOUPE_GAP >= i32::MIN,
        y + LOUPE_GAP + LOUPE_HEIGHT <= i32::MAX,
        y + LOUPE_GAP + LOUPE_HEIGHT > screen_h ==> y - LOUPE_HEIGHT - LOUPE_GAP >= i32::MIN,
    ensures
        r.0 == loupe_place(x as int, LOUPE_WIDTH as int, screen_w as int),
        r.1 == loupe_place(y as int, LOUPE_HEIGHT as int, screen_h as int),
{
    let mut win_x = x + LOUPE_GAP;
    let mut win_y = y + LOUPE_GAP;
    if win_x + LOUPE_WIDTH > screen_w {
        win_x = x - LOUPE_WIDTH - LOUPE_GAP;
    }
    if win_y + LOUPE_HEIGHT > screen_h {
        win_y = y - LOUPE_HEIGHT - LOUPE_GAP;
    }
    if win_x < 0 {
        win_x = 0;
    }
    if win_y < 0 {
        win_y = 0;
    }
    (win_x, win_y)
}

/// The hint at the bottom of the loupe.
pub fn loupe_hint(lang: Language) -> (s: &'static str)
    ensures
        lang == Language::Turkish ==> s@ == "[Tık/Space: Seç] [Esc: İptal]"@,
        lang == Language::English ==> s@ == "[Click/Space: Pick] [Esc: Cancel]"@,
{
    match lang {
        Language::Turkish => "[Tık/Space: Seç] [Esc: İptal]",
        Language::English => "[Click/Space: Pick] [Esc: Cancel]",
    }
}

/// The channel line under the loupe's color swatch: `RGB: R, G, B`.
pub fn loupe_rgb_text(c: RgbColor) -> (s: String)
    ensures
        s@ == "RGB: "@ + rgb_string(c),
{
    let mut s = "RGB: ".to_owned();
    let t = c.to_rgb_string();
    s.append(t.as_str());
    s
}

/// Law: the loupe never starts before the screen's edge, and it never
/// covers the cursor while there is room for it on either side of the
/// cursor (with the gap).
pub proof fn lemma_loupe_beside_cursor(p: int, size: int, screen: int)
    requires
        size > 0,
        0 <= p,
    ensures
        loupe_place(p, size, screen) >= 0,
        (p + LOUPE_GAP + size <= screen || p >= size + LOUPE_GAP) ==> (p < loupe_place(
            p,
            size,
            screen,
        ) || loupe_place(p, size, screen) + size < p),
{
}

/// The keys of a round where only the arrows given are held.
pub open spec fn arrows_only(left: bool, right: bool, up: bool, down: bool) -> LoupeKeys {
    LoupeKeys {
        left_button: false,
        space: false,
        right_button: false,
        escape: false,
        arrow_left: left,
        arrow_right: right,
        arrow_up: up,
        arrow_down: down,
    }
}

/// Law: each arrow held alone moves the cursor one pixel in its own
/// direction on the screen (x grows to the right, y grows downwards), so
/// up undoes down and left undoes right.
pub proof fn lemma_arrows_nudge_their_way()
    ensures
        loupe_action_for(arrows_only(false, false, true, false)) == LoupeAction::Nudge(0, -1i32),
        loupe_action_for(arrows_only(false, false, false, true)) == LoupeAction::Nudge(0, 1),
        loupe_action_for(arrows_only(true, false, false, false)) == LoupeAction::Nudge(-1i32, 0),
        loupe_action_for(arrows_only(false, true, false, false)) == LoupeAction::Nudge(1, 0),
{
}

/// Law: whatever arrows are held, a nudge moves the cursor by exactly one
/// pixel along one axis, and a nudge happens exactly when no pick or cancel
/// key is held and some arrow is; pick keys win over cancel keys.
pub proof fn lemma_nudge_is_one_pixel(k: LoupeKeys)
    ensures
        loupe_action_for(k) matches LoupeAction::Nudge(dx, dy) ==> (dx == 0 && (dy == 1 || dy == -1i32))
            || (dy == 0 && (dx == 1 || dx == -1i32)),
        (loupe_action_for(k) is Nudge) <==> (!(k.left_button || k.space || k.right_button || k.escape)
            && (k.arrow_left || k.arrow_right || k.arrow_up || k.arrow_down)),
        (loupe_action_for(k) == LoupeAction::Pick) <==> (k.left_button || k.space),
        (loupe_action_for(k) == LoupeAction::Cancel) <==> (!(k.left_button || k.space) && (k.right_button
            || k.escape)),
{
}

} // verus!
