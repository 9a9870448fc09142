//! Colors and their textual forms: `#RRGGBB`, `R, G, B`, `rgb(R, G, B)`, and
//! the packed `0x00BBGGRR` word that the screen APIs use.
use vstd::prelude::*;
use crate::text::{
    trim, trim_start, is_ws, trim_range, str_chars, dec_string, push_decimal, byte_len, is_boundary,
    char_width, char_width_exec, lemma_byte_len_ascii, lemma_dec_string,
};

verus! {

/// A color with 8-bit red, green and blue channels.
#[derive(Debug, Clone, Copy, PartialEq, Eq, Structural)]
pub struct RgbColor {
    pub r: u8,
    pub g: u8,
    pub b: u8,
}

/// The upper-case hexadecimal digits, by value.
pub open spec fn hex_char(d: int) -> char {
    seq!['0', '1', '2', '3', '4', '5', '6', '7', '8', '9', 'A', 'B', 'C', 'D', 'E', 'F'][d]
}

/// Two upper-case hexadecimal digits for a byte, as `{:02X}` writes them.
pub open spec fn hex_byte(b: u8) -> Seq<char> {
    seq![hex_char(b as int / 16), hex_char(b as int % 16)]
}

/// `#RRGGBB` in upper case.
pub open spec fn hex_string(c: RgbColor) -> Seq<char> {
    seq!['#'] + hex_byte(c.r) + hex_byte(c.g) + hex_byte(c.b)
}

/// `R, G, B` in decimal.
pub open spec fn rgb_string(c: RgbColor) -> Seq<char> {
    dec_string(c.r as nat) + seq![',', ' '] + dec_string(c.g as nat) + seq![',', ' ']
        + dec_string(c.b as nat)
}

/// `rgb(R, G, B)` in decimal.
pub open spec fn css_rgb_string(c: RgbColor) -> Seq<char> {
    seq!['r', 'g', 'b', '('] + rgb_string(c) + seq![')']
}

/// The value of a hexadecimal digit in either case.
pub open spec fn hex_value(c: char) -> Option<int> {
    if '0' <= c && c <= '9' {
        Some(c as int - '0' as int)
    } else if 'a' <= c && c <= 'f' {
        Some(c as int - 'a' as int + 10)
    } else if 'A' <= c && c <= 'F' {
        Some(c as int - 'A' as int + 10)
    } else {
        None
    }
}

/// What `u8::from_str_radix(p, 16)` gives for a two-character chunk: two hex
/// digits, or `+` and one hex digit.
pub open spec fn parse_hex_pair(p: Seq<char>) -> Option<u8> {
    if p.len() != 2 {
        None
    } else if p[0] == '+' {
        match hex_value(p[1]) {
            Some(v) => Some(v as u8),
            None => None,
        }
    } else {
        match (hex_value(p[0]), hex_value(p[1])) {
            (Some(a), Some(b)) => Some((a * 16 + b) as u8),
            _ => None,
        }
    }
}

/// `s` without its leading `#` characters (`trim_start_matches('#')`).
pub open spec fn strip_hashes(s: Seq<char>) -> Seq<char>
    decreases s.len(),
{
    if s.len() > 0 && s[0] == '#' {
        strip_hashes(s.drop_first())
    } else {
        s
    }
}

/// The part of a hex color text that holds the digits.
pub open spec fn hex_body(s: Seq<char>) -> Seq<char> {
    strip_hashes(trim(s))
}

/// The color that a hex text names: six characters after trimming and
/// dropping leading `#`, read as three pairs.
pub open spec fn parse_hex_color(s: Seq<char>) -> Option<RgbColor> {
    let b = hex_body(s);
    if b.len() == 6 {
        match (
            parse_hex_pair(b.subrange(0, 2)),
            parse_hex_pair(b.subrange(2, 4)),
            parse_hex_pair(b.subrange(4, 6)),
        ) {
            (Some(r), Some(g), Some(bl)) => Some(RgbColor { r, g, b: bl }),
            _ => None,
        }
    } else {
        None
    }
}

/// The texts on which reading a hex color slices a string through the middle
/// of a character: the digits take six bytes, and byte 2 is no character
/// boundary, or the first pair reads as a number and byte 4 is none.
pub open spec fn hex_text_splits_char(s: Seq<char>) -> bool {
    let b = hex_body(s);
    &&& byte_len(b) == 6
    &&& {
        ||| !is_boundary(b, 2)
        ||| (b.len() >= 2 && parse_hex_pair(b.take(2)) is Some && !is_boundary(b, 4))
    }
}

/// The packed `0x00BBGGRR` word of a color.
pub open spec fn colorref_of(c: RgbColor) -> u32 {
    (c.r as int + c.g as int * 256 + c.b as int * 65536) as u32
}

/// The color in the low three bytes of a packed word; the high byte is ignored.
pub open spec fn color_of_colorref(w: u32) -> RgbColor {
    RgbColor { r: (w % 256) as u8, g: ((w / 256) % 256) as u8, b: ((w / 65536) % 256) as u8 }
}

impl RgbColor {
    /// Builds a color from its three channels.
    pub fn new(r: u8, g: u8, b: u8) -> (c: Self)
        ensures
            c == (RgbColor { r, g, b }),
    {
        RgbColor { r, g, b }
    }

    /// `#RRGGBB` with upper-case digits.
    pub fn to_hex(&self) -> (s: String)
        ensures
            s@ == hex_string(*self),
    {
        let mut s = String::new();
        s.append("#");
        proof {
            reveal_strlit("#");
        }
        push_hex_byte(&mut s, self.r);
        push_hex_byte(&mut s, self.g);
        push_hex_byte(&mut s, self.b);
        assert(s@ == hex_string(*self));
        s
    }

    /// `R, G, B` in decimal, the form that paint programs take.
    pub fn to_rgb_string(&self) -> (s: String)
        ensures
            s@ == rgb_string(*self),
    {
        let mut s = String::new();
        push_rgb_triplet(&mut s, *self);
        s
    }

    /// `rgb(R, G, B)` in decimal, the CSS form.
    pub fn to_css_rgb(&self) -> (s: String)
        ensures
            s@ == css_rgb_string(*self),
    {
        let mut s = String::new();
        s.append("rgb(");
        proof {
            reveal_strlit("rgb(");
        }
        push_rgb_triplet(&mut s, *self);
        s.append(")");
        proof {
            reveal_strlit(")");
        }
        assert(s@ == css_rgb_string(*self));
        s
    }

    /// Reads a color from `#RRGGBB` text: white space around it and any
    /// number of leading `#` are ignored, digits may be in either case, and
    /// anything but exactly three two-digit pairs gives `None`.
    pub fn from_hex(hex: &str) -> (r: Option<Self>)
        requires
            !hex_text_splits_char(hex@),
        ensures
            r == parse_hex_color(hex@),
    {
        let v = str_chars(hex);
        assert(v@.subrange(0, v.len() as int) == v@);
        hex_color_of_chars(&v, 0, v.len())
    }

    /// Whether [`RgbColor::from_hex`] would have to split a character of
    /// `hex` in two (the inputs that its `requires` leaves out).
    pub fn hex_text_splits_char(hex: &str) -> (b: bool)
        ensures
            b == hex_text_splits_char(hex@),
    {
        let v = str_chars(hex);
        assert(v@.subrange(0, v.len() as int) == v@);
        hex_text_splits_char_range(&v, 0, v.len())
    }

    /// The packed `0x00BBGGRR` word for this color.
    pub fn to_colorref(&self) -> (w: u32)
        ensures
            w == colorref_of(*self),
    {
        let w = (self.r as u32) | ((self.g as u32) << 8) | ((self.b as u32) << 16);
        let (r, g, b) = (self.r, self.g, self.b);
        assert(((r as u32) | ((g as u32) << 8) | ((b as u32) << 16)) == r as u32 + g as u32 * 256
            + b as u32 * 65536) by (bit_vector);
        w
    }

    /// The color in the low three bytes of a packed `0x00BBGGRR` word.
    pub fn from_colorref(w: u32) -> (c: Self)
        ensures
            c == color_of_colorref(w),
    {
        let r = (w & 0xFF) as u8;
        let g = ((w >> 8) & 0xFF) as u8;
        let b = ((w >> 16) & 0xFF) as u8;
        assert((w & 0xFF) == w % 256) by (bit_vector);
        assert(((w >> 8) & 0xFF) == (w / 256) % 256) by (bit_vector);
        assert(((w >> 16) & 0xFF) == (w / 65536) % 256) by (bit_vector);
        RgbColor { r, g, b }
    }
}

/// Reads the color that `v[lo..hi]` names, as [`RgbColor::from_hex`] does.
pub(crate) fn hex_color_of_chars(v: &Vec<char>, lo: usize, hi: usize) -> (r: Option<RgbColor>)
    requires
        lo <= hi <= v.len(),
        !hex_text_splits_char(v@.subrange(lo as int, hi as int)),
    ensures
        r == parse_hex_color(v@.subrange(lo as int, hi as int)),
{
    let (a, b) = hex_body_range(v, lo, hi);
    if b - a != 6 {
        return None;
    }
    let ghost body = v@.subrange(a as int, b as int);
    assert(body.subrange(0, 2) == v@.subrange(a as int, a + 2));
    assert(body.subrange(2, 4) == v@.subrange(a + 2, a + 4));
    assert(body.subrange(4, 6) == v@.subrange(a + 4, a + 6));
    let r = match parse_hex_pair_at(v, a) {
        Some(x) => x,
        None => return None,
    };
    let g = match parse_hex_pair_at(v, a + 2) {
        Some(x) => x,
        None => return None,
    };
    let bl = match parse_hex_pair_at(v, a + 4) {
        Some(x) => x,
        None => return None,
    };
    Some(RgbColor { r, g, b: bl })
}

/// Whether reading `v[lo..hi]` as a hex color splits a character.
pub(crate) fn hex_text_splits_char_range(v: &Vec<char>, lo: usize, hi: usize) -> (b: bool)
    requires
        lo <= hi <= v.len(),
    ensures
        b == hex_text_splits_char(v@.subrange(lo as int, hi as int)),
{
    let (a, e) = hex_body_range(v, lo, hi);
    let ghost body = v@.subrange(a as int, e as int);
    let mut i = a;
    let mut acc: usize = 0;
    let mut has2 = false;
    let mut has4 = false;
    while i < e
        invariant
            a <= i <= e <= v.len(),
            body == v@.subrange(a as int, e as int),
            body == hex_body(v@.subrange(lo as int, hi as int)),
            acc == byte_len(body.take(i - a)),
            acc <= 6,
            has2 == (exists|k: int| 0 <= k <= i - a && #[trigger] byte_len(body.take(k)) == 2),
            has4 == (exists|k: int| 0 <= k <= i - a && #[trigger] byte_len(body.take(k)) == 4),
        decreases e - i,
    {
        if acc == 2 {
            assert(byte_len(body.take(i - a)) == 2);
            has2 = true;
        }
        if acc == 4 {
            assert(byte_len(body.take(i - a)) == 4);
            has4 = true;
        }
        let w = char_width_exec(v[i]);
        assert(body.take(i - a + 1).drop_last() == body.take(i - a));
        assert(body.take(i - a + 1).last() == v@[i as int]);
        proof {
            lemma_byte_len_take_increasing(body, i - a + 1);
        }
        if acc + w > 6 {
            proof {
                lemma_byte_len_take_le(body, i - a + 1);
            }
            return false;
        }
        acc = acc + w;
        i = i + 1;
        proof {
            assert forall|k: int| 0 <= k <= i - a && #[trigger] byte_len(body.take(k)) == 2
                implies has2 || acc == 2 by {
                if k == i - a {
                } else {
                    lemma_byte_len_take_strict(body, k, i - a);
                }
            }
            assert forall|k: int| 0 <= k <= i - a && #[trigger] byte_len(body.take(k)) == 4
                implies has4 || acc == 4 by {
                if k == i - a {
                } else {
                    lemma_byte_len_take_strict(body, k, i - a);
                }
            }
            if acc == 2 {
                assert(byte_len(body.take(i - a)) == 2);
            }
            if acc == 4 {
                assert(byte_len(body.take(i - a)) == 4);
            }
        }
        has2 = has2 || acc == 2;
        has4 = has4 || acc == 4;
    }
    assert(body.take(e - a) == body);
    if acc != 6 {
        return false;
    }
    assert(is_boundary(body, 2) == has2);
    assert(is_boundary(body, 4) == has4);
    if !has2 {
        return true;
    }
    if e - a >= 2 {
        assert(body.take(2) == v@.subrange(a as int, a + 2));
        let first = parse_hex_pair_at(v, a);
        return first.is_some() && !has4;
    }
    false
}

/// Positions `(a, b)` of the digits in the hex color text `v[lo..hi]`:
/// trimmed, without leading `#`.
fn hex_body_range(v: &Vec<char>, lo: usize, hi: usize) -> (r: (usize, usize))
    requires
        lo <= hi <= v.len(),
    ensures
        lo <= r.0 <= r.1 <= hi,
        v@.subrange(r.0 as int, r.1 as int) == hex_body(v@.subrange(lo as int, hi as int)),
{
    let (mut a, b) = trim_range(v, lo, hi);
    while a < b && v[a] == '#'
        invariant
            lo <= a <= b <= hi <= v.len(),
            strip_hashes(trim(v@.subrange(lo as int, hi as int))) == strip_hashes(
                v@.subrange(a as int, b as int),
            ),
        decreases b - a,
    {
        assert(v@.subrange(a as int, b as int).drop_first() == v@.subrange(a + 1, b as int));
        a = a + 1;
    }
    (a, b)
}

/// The value of one hex digit character.
fn hex_value_exec(c: char) -> (r: Option<u8>)
    ensures
        match hex_value(c) {
            Some(v) => r == Some(v as u8) && 0 <= v < 16,
            None => r is None,
        },
{
    if '0' <= c && c <= '9' {
        Some(((c as u32) - ('0' as u32)) as u8)
    } else if 'a' <= c && c <= 'f' {
        Some(((c as u32) - ('a' as u32) + 10) as u8)
    } else if 'A' <= c && c <= 'F' {
        Some(((c as u32) - ('A' as u32) + 10) as u8)
    } else {
        None
    }
}

/// Reads the two characters at `i` as [`parse_hex_pair`] does.
fn parse_hex_pair_at(v: &Vec<char>, i: usize) -> (r: Option<u8>)
    requires
        i + 2 <= v.len(),
    ensures
        r == parse_hex_pair(v@.subrange(i as int, i + 2)),
{
    let ghost p = v@.subrange(i as int, i + 2);
    assert(p[0] == v@[i as int] && p[1] == v@[i + 1]);
    if v[i] == '+' {
        return hex_value_exec(v[i + 1]);
    }
    match (hex_value_exec(v[i]), hex_value_exec(v[i + 1])) {
        (Some(x), Some(y)) => Some(x * 16 + y),
        _ => None,
    }
}

/// Appends the two upper-case hex digits of `b`.
fn push_hex_byte(s: &mut String, b: u8)
    ensures
        final(s)@ == old(s)@ + hex_byte(b),
{
    let digits = "0123456789ABCDEF";
    proof {
        reveal_strlit("0123456789ABCDEF");
    }
    let hi = (b / 16) as usize;
    let lo = (b % 16) as usize;
    let p1 = digits.substring_char(hi, hi + 1);
    let p2 = digits.substring_char(lo, lo + 1);
    assert(p1@ == seq![hex_char(hi as int)]);
    assert(p2@ == seq![hex_char(lo as int)]);
    s.append(p1);
    s.append(p2);
}

/// Appends `R, G, B`.
fn push_rgb_triplet(s: &mut String, c: RgbColor)
    ensures
        final(s)@ == old(s)@ + rgb_string(c),
{
    let sep = ", ";
    proof {
        reveal_strlit(", ");
    }
    push_decimal(s, c.r as u32);
    s.append(sep);
    push_decimal(s, c.g as u32);
    s.append(sep);
    push_decimal(s, c.b as u32);
    assert(final(s)@ == old(s)@ + rgb_string(c));
}

/// Prefixes of a character sequence grow by the width of each added character.
proof fn lemma_byte_len_take_increasing(s: Seq<char>, k: int)
    requires
        0 < k <= s.len(),
    ensures
        byte_len(s.take(k)) == byte_len(s.take(k - 1)) + char_width(s[k - 1]),
        byte_len(s.take(k)) > byte_len(s.take(k - 1)),
{
    assert(s.take(k).drop_last() == s.take(k - 1));
}

/// Longer prefixes take strictly more bytes.
proof fn lemma_byte_len_take_strict(s: Seq<char>, j: int, k: int)
    requires
        0 <= j < k <= s.len(),
    ensures
        byte_len(s.take(j)) < byte_len(s.take(k)),
    decreases k - j,
{
    lemma_byte_len_take_increasing(s, k);
    if j < k - 1 {
        lemma_byte_len_take_strict(s, j, k - 1);
    }
}

/// A prefix takes no more bytes than the whole.
proof fn lemma_byte_len_take_le(s: Seq<char>, k: int)
    requires
        0 <= k <= s.len(),
    ensures
        byte_len(s.take(k)) <= byte_len(s),
{
    if k < s.len() {
        lemma_byte_len_take_strict(s, k, s.len() as int);
    }
    assert(s.take(s.len() as int) == s);
}

/// Upper-case hex digits read back as the values they stand for.
pub proof fn lemma_hex_char(d: int)
    requires
        0 <= d < 16,
    ensures
        hex_value(hex_char(d)) == Some(d),
        hex_char(d) != '+' && hex_char(d) != '#' && !is_ws(hex_char(d)),
        ('0' <= hex_char(d) && hex_char(d) <= '9') || ('A' <= hex_char(d) && hex_char(d) <= 'F'),
        '\u{80}' > hex_char(d),
{
    let t = seq!['0', '1', '2', '3', '4', '5', '6', '7', '8', '9', 'A', 'B', 'C', 'D', 'E', 'F'];
    assert(hex_char(d) == t[d]);
    if d < 10 {
        assert(t[d] as int == '0' as int + d);
    } else {
        assert(t[d] as int == 'A' as int + d - 10);
    }
}

/// The two digits of a byte read back as that byte.
pub proof fn lemma_hex_byte(b: u8)
    ensures
        parse_hex_pair(hex_byte(b)) == Some(b),
{
    lemma_hex_char(b as int / 16);
    lemma_hex_char(b as int % 16);
}

/// Law: the `#RRGGBB` text of a color reads back as the same color, and
/// reading it never splits a character.
pub proof fn lemma_hex_round_trip(c: RgbColor)
    ensures
        !hex_text_splits_char(hex_string(c)),
        parse_hex_color(hex_string(c)) == Some(c),
{
    let s = hex_string(c);
    let body = hex_byte(c.r) + hex_byte(c.g) + hex_byte(c.b);
    lemma_hex_char(c.r as int / 16);
    lemma_hex_char(c.r as int % 16);
    lemma_hex_char(c.g as int / 16);
    lemma_hex_char(c.g as int % 16);
    lemma_hex_char(c.b as int / 16);
    lemma_hex_char(c.b as int % 16);
    assert(s.len() == 7);
    assert(s[0] == '#');
    assert(trim(s) == s) by {
        assert(trim_start(s) == s);
        assert(!is_ws(s.last()));
    }
    assert(s.drop_first() == body);
    assert(strip_hashes(body) == body);
    assert(hex_body(s) == body);
    assert(body.subrange(0, 2) == hex_byte(c.r));
    assert(body.subrange(2, 4) == hex_byte(c.g));
    assert(body.subrange(4, 6) == hex_byte(c.b));
    lemma_hex_byte(c.r);
    lemma_hex_byte(c.g);
    lemma_hex_byte(c.b);
    assert forall|i: int| 0 <= i < body.len() implies '\u{80}' > body[i] by {}
    lemma_byte_len_ascii(body);
    lemma_byte_len_ascii(body.take(2));
    lemma_byte_len_ascii(body.take(4));
    assert(byte_len(body.take(2)) == 2);
    assert(byte_len(body.take(4)) == 4);
    assert(is_boundary(body, 2));
    assert(is_boundary(body, 4));
}

/// Law: packing a color into a `0x00BBGGRR` word and unpacking it gives the
/// color back.
pub proof fn lemma_colorref_round_trip(c: RgbColor)
    ensures
        color_of_colorref(colorref_of(c)) == c,
{
    let w = colorref_of(c);
    assert(w == c.r as int + c.g as int * 256 + c.b as int * 65536);
    assert(w % 256 == c.r) by (nonlinear_arith)
        requires
            w == c.r as int + c.g as int * 256 + c.b as int * 65536,
            0 <= c.r < 256,
            0 <= c.g < 256,
            0 <= c.b < 256,
    ;
    assert((w / 256) % 256 == c.g) by (nonlinear_arith)
        requires
            w == c.r as int + c.g as int * 256 + c.b as int * 65536,
            0 <= c.r < 256,
            0 <= c.g < 256,
            0 <= c.b < 256,
    ;
    assert((w / 65536) % 256 == c.b) by (nonlinear_arith)
        requires
            w == c.r as int + c.g as int * 256 + c.b as int * 65536,
            0 <= c.r < 256,
            0 <= c.g < 256,
            0 <= c.b < 256,
    ;
}

/// The lower-case hexadecimal digits, by value.
pub open spec fn lower_hex_char(d: int) -> char {
    seq!['0', '1', '2', '3', '4', '5', '6', '7', '8', '9', 'a', 'b', 'c', 'd', 'e', 'f'][d]
}

/// `#rrggbb` in lower case.
pub open spec fn lower_hex_string(c: RgbColor) -> Seq<char> {
    seq![
        '#',
        lower_hex_char(c.r as int / 16),
        lower_hex_char(c.r as int % 16),
        lower_hex_char(c.g as int / 16),
        lower_hex_char(c.g as int % 16),
        lower_hex_char(c.b as int / 16),
        lower_hex_char(c.b as int % 16),
    ]
}

/// Law: every hexadecimal digit reads as its value in either case, and no
/// digit is a `+`, a `#` or white space.
pub proof fn lemma_hex_digits_both_cases(d: int)
    requires
        0 <= d < 16,
    ensures
        hex_value(lower_hex_char(d)) == Some(d),
        hex_value(hex_char(d)) == Some(d),
        lower_hex_char(d) != '+' && lower_hex_char(d) != '#' && !is_ws(lower_hex_char(d)),
{
    lemma_hex_char(d);
    let t = seq!['0', '1', '2', '3', '4', '5', '6', '7', '8', '9', 'a', 'b', 'c', 'd', 'e', 'f'];
    assert(lower_hex_char(d) == t[d]);
    if d < 10 {
        assert(t[d] as int == '0' as int + d);
    } else {
        assert(t[d] as int == 'a' as int + d - 10);
    }
}

/// Law: the lower-case `#rrggbb` text of a color reads as that color.
pub proof fn lemma_lower_hex_reads(c: RgbColor)
    ensures
        parse_hex_color(lower_hex_string(c)) == Some(c),
{
    let s = lower_hex_string(c);
    lemma_hex_digits_both_cases(c.r as int / 16);
    lemma_hex_digits_both_cases(c.r as int % 16);
    lemma_hex_digits_both_cases(c.g as int / 16);
    lemma_hex_digits_both_cases(c.g as int % 16);
    lemma_hex_digits_both_cases(c.b as int / 16);
    lemma_hex_digits_both_cases(c.b as int % 16);
    let body = s.drop_first();
    assert(trim(s) == s) by {
        assert(trim_start(s) == s);
        assert(!is_ws(s.last()));
    }
    assert(strip_hashes(body) == body);
    assert(strip_hashes(s) == strip_hashes(body));
    assert(hex_body(s) == body);
    assert(body.subrange(0, 2) == seq![lower_hex_char(c.r as int / 16), lower_hex_char(c.r as int % 16)]);
    assert(body.subrange(2, 4) == seq![lower_hex_char(c.g as int / 16), lower_hex_char(c.g as int % 16)]);
    assert(body.subrange(4, 6) == seq![lower_hex_char(c.b as int / 16), lower_hex_char(c.b as int % 16)]);
    assert((c.r as int / 16) * 16 + c.r as int % 16 == c.r);
    assert((c.g as int / 16) * 16 + c.g as int % 16 == c.g);
    assert((c.b as int / 16) * 16 + c.b as int % 16 == c.b);
}

} // verus!
