//! Colors: hex and palette-index notations, conversion between the true
//! color, 256-color and 16-color palettes, and the color kinds that adapt
//! to the terminal.

use vstd::prelude::*;
use palette::FromColor;
use palette::color_difference::EuclideanDistance;
use crate::renderer::{ColorProfileKind, Renderer};
use crate::strings::{
    digit_char, hex_value, is_unicode_whitespace, leading_ws, trailing_ws, chars_of, decimal_chars, parse_hex_digits, parse_u32, push_hex2, spec_decimal, spec_hex2, law_decimal_round_trip,
    spec_hex_digits, spec_parse_u32, spec_trim, string_from_chars, trim_chars,
};

verus! {

// ---------------------------------------------------------------------
// Hex notation
// ---------------------------------------------------------------------

/// A nibble repeated to fill a byte (`#abc` means `#aabbcc`).
pub open spec fn expand_nibble(v: u8) -> u8 {
    (v as nat * 17) as u8
}

/// The channels named by the hex digits after `#`: three, four, six or eight
/// of them (`#RGB`, `#RGBA`, `#RRGGBB`, `#RRGGBBAA`); alpha is 255 when absent.
pub open spec fn spec_hex_channels(h: Seq<char>) -> Option<(u8, u8, u8, u8)> {
    if h.len() == 3 || h.len() == 4 {
        let r = spec_hex_digits(h.subrange(0, 1));
        let g = spec_hex_digits(h.subrange(1, 2));
        let b = spec_hex_digits(h.subrange(2, 3));
        let a = if h.len() == 4 { spec_hex_digits(h.subrange(3, 4)) } else { Some(15u8) };
        if r is Some && g is Some && b is Some && a is Some {
            Some((
                expand_nibble(r->0),
                expand_nibble(g->0),
                expand_nibble(b->0),
                expand_nibble(a->0),
            ))
        } else {
            None
        }
    } else if h.len() == 6 || h.len() == 8 {
        let r = spec_hex_digits(h.subrange(0, 2));
        let g = spec_hex_digits(h.subrange(2, 4));
        let b = spec_hex_digits(h.subrange(4, 6));
        let a = if h.len() == 8 { spec_hex_digits(h.subrange(6, 8)) } else { Some(255u8) };
        if r is Some && g is Some && b is Some && a is Some {
            Some((r->0, g->0, b->0, a->0))
        } else {
            None
        }
    } else {
        None
    }
}

/// The channels of a hex color string: surrounding whitespace is ignored,
/// then `#` and three, four, six or eight hex digits.
pub open spec fn spec_parse_hex(s: Seq<char>) -> Option<(u8, u8, u8, u8)> {
    let t = spec_trim(s);
    if t.len() > 0 && t[0] == '#' {
        spec_hex_channels(t.drop_first())
    } else {
        None
    }
}


/// Every character of `h` is a hexadecimal digit.
pub open spec fn all_hex(h: Seq<char>) -> bool {
    forall|i: int| 0 <= i < h.len() ==> #[trigger] hex_value(h[i]) is Some
}

/// A hex color parses exactly when, once surrounding whitespace is
/// trimmed, it is `#` followed by three, four, six or eight hexadecimal
/// digits.
pub proof fn law_parse_hex_accepts(s: Seq<char>)
    ensures
        spec_parse_hex(s) is Some <==> ({
            let t = spec_trim(s);
            &&& t.len() > 0 && t[0] == '#'
            &&& (t.len() == 4 || t.len() == 5 || t.len() == 7 || t.len() == 9)
            &&& all_hex(t.drop_first())
        }),
{
    let t = spec_trim(s);
    if t.len() > 0 && t[0] == '#' {
        let h = t.drop_first();
        if h.len() == 3 || h.len() == 4 {
            if spec_hex_channels(h) is Some {
                assert forall|i: int| 0 <= i < h.len() implies #[trigger] hex_value(h[i]) is Some by {
                    assert(h.subrange(i, i + 1)[0] == h[i]);
                }
            }
            if all_hex(h) {
                assert(hex_value(h.subrange(0, 1)[0]) is Some);
                assert(hex_value(h.subrange(1, 2)[0]) is Some);
                assert(hex_value(h.subrange(2, 3)[0]) is Some);
                if h.len() == 4 {
                    assert(hex_value(h.subrange(3, 4)[0]) is Some);
                }
            }
        } else if h.len() == 6 || h.len() == 8 {
            if spec_hex_channels(h) is Some {
                assert forall|i: int| 0 <= i < h.len() implies #[trigger] hex_value(h[i]) is Some by {
                    let k = i - i % 2;
                    assert(k == 0 || k == 2 || k == 4 || k == 6);
                    assert(h.subrange(k, k + 2)[i - k] == h[i]);
                }
            }
            if all_hex(h) {
                assert(hex_value(h.subrange(0, 2)[0]) is Some && hex_value(h.subrange(0, 2)[1]) is Some);
                assert(hex_value(h.subrange(2, 4)[0]) is Some && hex_value(h.subrange(2, 4)[1]) is Some);
                assert(hex_value(h.subrange(4, 6)[0]) is Some && hex_value(h.subrange(4, 6)[1]) is Some);
                if h.len() == 8 {
                    assert(hex_value(h.subrange(6, 8)[0]) is Some && hex_value(h.subrange(6, 8)[1]) is Some);
                }
            }
        }
    }
}

fn hex_channels(h: &[char]) -> (r: Option<(u8, u8, u8, u8)>)
    ensures
        r == spec_hex_channels(h@),
{
    let n = h.len();
    if n == 3 || n == 4 {
        let r = parse_hex_digits(&h[0..1]);
        let g = parse_hex_digits(&h[1..2]);
        let b = parse_hex_digits(&h[2..3]);
        let a = if n == 4 { parse_hex_digits(&h[3..4]) } else { Some(15u8) };
        match (r, g, b, a) {
            (Some(r), Some(g), Some(b), Some(a)) => {
                assert(r < 16 && g < 16 && b < 16 && a < 16);
                Some((r * 17, g * 17, b * 17, a * 17))
            },
            _ => None,
        }
    } else if n == 6 || n == 8 {
        let r = parse_hex_digits(&h[0..2]);
        let g = parse_hex_digits(&h[2..4]);
        let b = parse_hex_digits(&h[4..6]);
        let a = if n == 8 { parse_hex_digits(&h[6..8]) } else { Some(255u8) };
        match (r, g, b, a) {
            (Some(r), Some(g), Some(b), Some(a)) => Some((r, g, b, a)),
            _ => None,
        }
    } else {
        None
    }
}

/// Parses a hex color: whitespace is trimmed, then `#` and three, four, six
/// or eight hex digits.
fn parse_hex_chars(s: &str) -> (r: Option<(u8, u8, u8, u8)>)
    ensures
        r == spec_parse_hex(s@),
{
    let cs = chars_of(s);
    let t = trim_chars(cs.as_slice());
    if t.len() > 0 && t[0] == '#' {
        let h = &t.as_slice()[1..t.len()];
        assert(h@ =~= t@.drop_first());
        hex_channels(h)
    } else {
        None
    }
}

/// The channels of a hex color (`#RGB`, `#RGBA`, `#RRGGBB` or `#RRGGBBAA`,
/// surrounding whitespace ignored), alpha 255 when absent.
pub fn parse_hex(s: &str) -> (r: Option<(u8, u8, u8, u8)>)
    ensures
        r == spec_parse_hex(s@),
{
    parse_hex_chars(s)
}

/// The channels of a hex color as 8-bit values held in `u32`s.
pub open spec fn spec_parse_hex_rgba_8bit(s: Seq<char>) -> Option<(u32, u32, u32, u32)> {
    match spec_parse_hex(s) {
        Some((r, g, b, a)) => Some((r as u32, g as u32, b as u32, a as u32)),
        None => None,
    }
}

/// The channels of a hex color as 8-bit values held in `u32`s.
pub fn parse_hex_rgba_8bit(s: &str) -> (r: Option<(u32, u32, u32, u32)>)
    ensures
        r == spec_parse_hex_rgba_8bit(s@),
{
    match parse_hex_chars(s) {
        Some((r, g, b, a)) => Some((r as u32, g as u32, b as u32, a as u32)),
        None => None,
    }
}

/// The channels of a hex color: red, green and blue as 8-bit values, alpha
/// widened to 16 bits (`a * 257`).
pub open spec fn spec_parse_hex_rgba(s: Seq<char>) -> Option<(u32, u32, u32, u32)> {
    match spec_parse_hex(s) {
        Some((r, g, b, a)) => Some((r as u32, g as u32, b as u32, (a as nat * 257) as u32)),
        None => None,
    }
}

/// The channels of a hex color, alpha widened to 16 bits.
pub fn parse_hex_rgba(s: &str) -> (r: Option<(u32, u32, u32, u32)>)
    ensures
        r == spec_parse_hex_rgba(s@),
{
    match parse_hex_chars(s) {
        Some((r, g, b, a)) => Some((r as u32, g as u32, b as u32, a as u32 * 257)),
        None => None,
    }
}

// ---------------------------------------------------------------------
// Palettes
// ---------------------------------------------------------------------

/// The sixteen basic colors.
pub open spec fn spec_ansi16_rgb(i: nat) -> (u8, u8, u8) {
    if i == 0 {
        (0x00, 0x00, 0x00)
    } else if i == 1 {
        (0x80, 0x00, 0x00)
    } else if i == 2 {
        (0x00, 0x80, 0x00)
    } else if i == 3 {
        (0x80, 0x80, 0x00)
    } else if i == 4 {
        (0x00, 0x00, 0x80)
    } else if i == 5 {
        (0x80, 0x00, 0x80)
    } else if i == 6 {
        (0x00, 0x80, 0x80)
    } else if i == 7 {
        (0xc0, 0xc0, 0xc0)
    } else if i == 8 {
        (0x80, 0x80, 0x80)
    } else if i == 9 {
        (0xff, 0x00, 0x00)
    } else if i == 10 {
        (0x00, 0xff, 0x00)
    } else if i == 11 {
        (0xff, 0xff, 0x00)
    } else if i == 12 {
        (0x00, 0x00, 0xff)
    } else if i == 13 {
        (0xff, 0x00, 0xff)
    } else if i == 14 {
        (0x00, 0xff, 0xff)
    } else {
        (0xff, 0xff, 0xff)
    }
}

/// The levels of the 6x6x6 color cube of the 256-color palette.
pub open spec fn cube_level(i: nat) -> u8 {
    if i == 0 {
        0x00
    } else if i == 1 {
        0x5f
    } else if i == 2 {
        0x87
    } else if i == 3 {
        0xaf
    } else if i == 4 {
        0xd7
    } else {
        0xff
    }
}

/// The color of an entry of the 256-color palette: the basic colors, the
/// color cube, then the gray ramp.
pub open spec fn spec_ansi256_to_rgb(idx: u8) -> (u8, u8, u8) {
    if idx < 16 {
        spec_ansi16_rgb(idx as nat)
    } else if idx < 232 {
        let i = (idx - 16) as nat;
        (cube_level(i / 36), cube_level((i % 36) / 6), cube_level(i % 6))
    } else {
        let v = (8 + 10 * (idx - 232)) as u8;
        (v, v, v)
    }
}

fn ansi16_rgb(i: u8) -> (r: (u8, u8, u8))
    requires
        i < 16,
    ensures
        r == spec_ansi16_rgb(i as nat),
{
    match i {
        0 => (0x00, 0x00, 0x00),
        1 => (0x80, 0x00, 0x00),
        2 => (0x00, 0x80, 0x00),
        3 => (0x80, 0x80, 0x00),
        4 => (0x00, 0x00, 0x80),
        5 => (0x80, 0x00, 0x80),
        6 => (0x00, 0x80, 0x80),
        7 => (0xc0, 0xc0, 0xc0),
        8 => (0x80, 0x80, 0x80),
        9 => (0xff, 0x00, 0x00),
        10 => (0x00, 0xff, 0x00),
        11 => (0xff, 0xff, 0x00),
        12 => (0x00, 0x00, 0xff),
        13 => (0xff, 0x00, 0xff),
        14 => (0x00, 0xff, 0xff),
        _ => (0xff, 0xff, 0xff),
    }
}

fn cube_level_exec(i: u8) -> (r: u8)
    requires
        i < 6,
    ensures
        r == cube_level(i as nat),
{
    match i {
        0 => 0x00,
        1 => 0x5f,
        2 => 0x87,
        3 => 0xaf,
        4 => 0xd7,
        _ => 0xff,
    }
}

/// The color of an entry of the 256-color palette.
pub fn ansi256_to_rgb_u8(idx: u8) -> (r: (u8, u8, u8))
    ensures
        r == spec_ansi256_to_rgb(idx),
{
    if idx < 16 {
        ansi16_rgb(idx)
    } else if idx < 232 {
        let i = idx - 16;
        (cube_level_exec(i / 36), cube_level_exec((i % 36) / 6), cube_level_exec(i % 6))
    } else {
        let v = 8 + 10 * (idx - 232);
        (v, v, v)
    }
}

/// Squared Euclidean distance between two colors.
pub open spec fn spec_dist2(r1: u8, g1: u8, b1: u8, r2: u8, g2: u8, b2: u8) -> int {
    (r1 - r2) * (r1 - r2) + (g1 - g2) * (g1 - g2) + (b1 - b2) * (b1 - b2)
}

/// Squared Euclidean distance between two colors.
pub fn dist2(r1: u8, g1: u8, b1: u8, r2: u8, g2: u8, b2: u8) -> (d: u32)
    ensures
        d == spec_dist2(r1, g1, b1, r2, g2, b2),
{
    let dr = r1 as i32 - r2 as i32;
    let dg = g1 as i32 - g2 as i32;
    let db = b1 as i32 - b2 as i32;
    assert(dr * dr <= 65025) by (nonlinear_arith)
        requires
            -255 <= dr <= 255,
    ;
    assert(dg * dg <= 65025) by (nonlinear_arith)
        requires
            -255 <= dg <= 255,
    ;
    assert(db * db <= 65025) by (nonlinear_arith)
        requires
            -255 <= db <= 255,
    ;
    assert(dr * dr >= 0 && dg * dg >= 0 && db * db >= 0) by (nonlinear_arith);
    (dr * dr + dg * dg + db * db) as u32
}

/// Index of a channel on the 6-level color cube.
pub open spec fn spec_v2ci(v: u8) -> nat {
    if v < 48 {
        0
    } else if v < 115 {
        1
    } else {
        let q = ((v - 35) / 40) as nat;
        if q > 5 { 5 } else { q }
    }
}

/// Index on the 24-step gray ramp for a channel sum `s = r + g + b`: the
/// average minus 3, divided by 10 and rounded, kept within `0..=23`.
pub open spec fn spec_gray_index(s: nat) -> nat {
    if s > 714 {
        23
    } else if s < 9 {
        0
    } else {
        let q = ((s + 6) / 30) as nat;
        if q > 23 { 23 } else { q }
    }
}

/// The nearest 256-palette entry: the nearer (by squared distance) of the
/// color-cube entry and the gray-ramp entry, the cube winning ties.
pub open spec fn spec_rgb_to_ansi256(r: u8, g: u8, b: u8) -> u8 {
    let qr = spec_v2ci(r);
    let qg = spec_v2ci(g);
    let qb = spec_v2ci(b);
    let ci = 36 * qr + 6 * qg + qb;
    let gi = spec_gray_index(r as nat + g as nat + b as nat);
    let gv = (8 + 10 * gi) as u8;
    if spec_dist2(r, g, b, cube_level(qr), cube_level(qg), cube_level(qb)) <= spec_dist2(
        r,
        g,
        b,
        gv,
        gv,
        gv,
    ) {
        (16 + ci) as u8
    } else {
        (232 + gi) as u8
    }
}


proof fn lemma_v2ci_of_level(q: nat)
    requires
        q < 6,
    ensures
        spec_v2ci(cube_level(q)) == q,
{
    let v = cube_level(q);
    if q == 2 {
        assert((v - 35) / 40 == 2);
    } else if q == 3 {
        assert((v - 35) / 40 == 3);
    } else if q == 4 {
        assert((v - 35) / 40 == 4);
    } else if q == 5 {
        assert((v - 35) / 40 == 5);
    }
}

/// Entries 232 to 255 of the 256-color palette are the gray ramp from dark
/// to light: entry `232 + k` has all three channels equal to `8 + 10k`, so
/// 232 is the darkest gray, 255 the lightest, and each entry is brighter
/// than the one before it.
pub proof fn law_ansi256_gray_ramp(j: nat, k: nat)
    requires
        j < k < 24,
    ensures
        spec_ansi256_to_rgb((232 + k) as u8) == ((8 + 10 * k) as u8, (8 + 10 * k) as u8, (8 + 10 * k) as u8),
        spec_ansi256_to_rgb((232 + j) as u8) == ((8 + 10 * j) as u8, (8 + 10 * j) as u8, (8 + 10 * j) as u8),
        spec_ansi256_to_rgb((232 + j) as u8).0 < spec_ansi256_to_rgb((232 + k) as u8).0,
        spec_ansi256_to_rgb(232).0 == 8 && spec_ansi256_to_rgb(255).0 == 238,
{
}

/// The channel levels of the 6x6x6 color cube: 0, then `55 + 40i` for
/// steps `i` from 1 to 5 (95, 135, 175, 215, 255); entry
/// `16 + 36r + 6g + b` has red, green and blue at steps `r`, `g` and `b`.
pub proof fn law_ansi256_cube_levels(r: nat, g: nat, b: nat)
    requires
        r < 6 && g < 6 && b < 6,
    ensures
        spec_ansi256_to_rgb((16 + 36 * r + 6 * g + b) as u8) == (
            (if r == 0 { 0 } else { 55 + 40 * r }) as u8,
            (if g == 0 { 0 } else { 55 + 40 * g }) as u8,
            (if b == 0 { 0 } else { 55 + 40 * b }) as u8,
        ),
{
    let i = (36 * r + 6 * g + b) as nat;
    assert(i / 36 == r && (i % 36) / 6 == g && i % 6 == b) by (nonlinear_arith)
        requires
            i == 36 * r + 6 * g + b,
            r < 6 && g < 6 && b < 6,
    ;
}

/// The 16 basic colors: entry `i` other than 7 and 8 has red, green and
/// blue on as bits 1, 2 and 4 of `i % 8`, at half intensity (0x80) for the
/// first eight and full (0xff) for the bright eight; 7 is light gray
/// (0xc0) and 8 dark gray (0x80). The 256-color palette starts with them.
pub proof fn law_ansi16_colors(i: nat)
    requires
        i < 16,
    ensures
        spec_ansi256_to_rgb(i as u8) == spec_ansi16_rgb(i),
        i == 7 ==> spec_ansi16_rgb(i) == (0xc0u8, 0xc0u8, 0xc0u8),
        i == 8 ==> spec_ansi16_rgb(i) == (0x80u8, 0x80u8, 0x80u8),
        i != 7 && i != 8 ==> spec_ansi16_rgb(i) == ({
            let on: u8 = if i < 8 { 0x80 } else { 0xff };
            let bits = i % 8;
            (
                if bits % 2 == 1 { on } else { 0 },
                if (bits / 2) % 2 == 1 { on } else { 0 },
                if bits / 4 == 1 { on } else { 0 },
            )
        }),
{
}

/// Every color lands on the color cube or the gray ramp (entries 16 to
/// 255), and every color of the cube maps back to its own entry.
pub proof fn law_ansi256_cube(r: u8, g: u8, b: u8, qr: nat, qg: nat, qb: nat)
    requires
        qr < 6 && qg < 6 && qb < 6,
    ensures
        16 <= spec_rgb_to_ansi256(r, g, b),
        spec_rgb_to_ansi256(cube_level(qr), cube_level(qg), cube_level(qb)) == 16 + 36 * qr + 6 * qg + qb,
        spec_ansi256_to_rgb((16 + 36 * qr + 6 * qg + qb) as u8) == (cube_level(qr), cube_level(qg), cube_level(qb)),
{
    assert(spec_v2ci(r) < 6 && spec_v2ci(g) < 6 && spec_v2ci(b) < 6);
    assert(spec_gray_index(r as nat + g as nat + b as nat) <= 23);
    lemma_v2ci_of_level(qr);
    lemma_v2ci_of_level(qg);
    lemma_v2ci_of_level(qb);
    let (cr, cg, cb) = (cube_level(qr), cube_level(qg), cube_level(qb));
    let gi = spec_gray_index(cr as nat + cg as nat + cb as nat);
    let gv = (8 + 10 * gi) as u8;
    assert(spec_dist2(cr, cg, cb, cr, cg, cb) == 0);
    assert(spec_dist2(cr, cg, cb, gv, gv, gv) >= 0) by (nonlinear_arith);
    let i = 36 * qr + 6 * qg + qb;
    assert(i / 36 == qr && (i % 36) / 6 == qg && i % 6 == qb) by (nonlinear_arith)
        requires
            i == 36 * qr + 6 * qg + qb,
            qr < 6 && qg < 6 && qb < 6,
    ;
}

fn v2ci(v: u8) -> (r: u8)
    ensures
        r == spec_v2ci(v),
        r < 6,
{
    if v < 48 {
        0
    } else if v < 115 {
        1
    } else {
        let q = (v - 35) / 40;
        if q > 5 { 5 } else { q }
    }
}

/// The nearest entry of the 256-color palette to an RGB color.
pub fn rgb_to_ansi256(r: u8, g: u8, b: u8) -> (idx: u8)
    ensures
        idx == spec_rgb_to_ansi256(r, g, b),
{
    let qr = v2ci(r);
    let qg = v2ci(g);
    let qb = v2ci(b);
    let ci = 36 * qr + 6 * qg + qb;
    let cr = cube_level_exec(qr);
    let cg = cube_level_exec(qg);
    let cb = cube_level_exec(qb);
    let s = r as u32 + g as u32 + b as u32;
    let gray_idx: u8 = if s > 714 {
        23
    } else if s < 9 {
        0
    } else {
        let q = (s + 6) / 30;
        if q > 23 { 23 } else { q as u8 }
    };
    let gv = 8 + 10 * gray_idx;
    let color_cube_dist = dist2(r, g, b, cr, cg, cb);
    let gray_dist = dist2(r, g, b, gv, gv, gv);
    if color_cube_dist <= gray_dist {
        16 + ci
    } else {
        232 + gray_idx
    }
}

/// Whether, in the CIELAB space as computed by `palette`, color `a` lies
/// strictly nearer to `src` than color `b` does.
pub uninterp spec fn spec_lab_closer(src: (u8, u8, u8), a: (u8, u8, u8), b: (u8, u8, u8)) -> bool;

/// Compares CIELAB distances with `palette`: `Lab::from_color` of each sRGB
/// color, then `EuclideanDistance::distance` from `src`. The contract only
/// names the answer; the float arithmetic stays inside `palette`.
#[verifier::external_body]
fn lab_closer(src: (u8, u8, u8), a: (u8, u8, u8), b: (u8, u8, u8)) -> (r: bool)
    ensures
        r == spec_lab_closer(src, a, b),
{
    let lab = |c: (u8, u8, u8)| -> palette::Lab { palette::Lab::from_color(palette::Srgb::new(c.0, c.1, c.2).into_format()) };
    let s = lab(src);
    s.distance(lab(a)) < s.distance(lab(b))
}

/// Index of the first nearest basic color among the first `n` of them.
pub open spec fn spec_nearest_ansi16_upto(src: (u8, u8, u8), n: nat) -> nat
    decreases n,
{
    if n <= 1 {
        0
    } else {
        let best = spec_nearest_ansi16_upto(src, (n - 1) as nat);
        if spec_lab_closer(src, spec_ansi16_rgb((n - 1) as nat), spec_ansi16_rgb(best)) {
            (n - 1) as nat
        } else {
            best
        }
    }
}

/// The nearest of the sixteen basic colors in CIELAB, the first one on ties.
pub open spec fn spec_rgb_to_ansi16(r: u8, g: u8, b: u8) -> u8 {
    spec_nearest_ansi16_upto((r, g, b), 16) as u8
}

proof fn lemma_nearest_bound(src: (u8, u8, u8), n: nat)
    ensures
        n >= 1 ==> spec_nearest_ansi16_upto(src, n) < n,
        n == 0 ==> spec_nearest_ansi16_upto(src, n) == 0,
    decreases n,
{
    if n > 1 {
        lemma_nearest_bound(src, (n - 1) as nat);
    }
}

/// The nearest of the sixteen basic colors, measured in CIELAB.
pub fn rgb_to_ansi16(r: u8, g: u8, b: u8) -> (idx: u8)
    ensures
        idx == spec_rgb_to_ansi16(r, g, b),
        idx < 16,
{
    let mut best: u8 = 0;
    let mut i: u8 = 1;
    while i < 16
        invariant
            1 <= i <= 16,
            best as nat == spec_nearest_ansi16_upto((r, g, b), i as nat),
            best < i,
        decreases 16 - i,
    {
        if lab_closer((r, g, b), ansi16_rgb(i), ansi16_rgb(best)) {
            best = i;
        }
        i = i + 1;
    }
    proof {
        lemma_nearest_bound((r, g, b), 16);
    }
    best
}

// ---------------------------------------------------------------------
// Tokens for a color profile
// ---------------------------------------------------------------------

/// `#rrggbb` in lowercase hex.
pub open spec fn spec_hex_rgb(r: u8, g: u8, b: u8) -> Seq<char> {
    seq!['#'] + spec_hex2(r) + spec_hex2(g) + spec_hex2(b)
}

fn hex_rgb_chars(r: u8, g: u8, b: u8) -> (v: Vec<char>)
    ensures
        v@ == spec_hex_rgb(r, g, b),
{
    let mut v: Vec<char> = Vec::new();
    v.push('#');
    push_hex2(&mut v, r);
    push_hex2(&mut v, g);
    push_hex2(&mut v, b);
    assert(v@ =~= spec_hex_rgb(r, g, b));
    v
}

/// The palette number (0 to 15) that an index stands for under the
/// 16-color profile: an SGR color code names its color (30–37 and 40–47
/// the basic eight, 90–97 and 100–107 the bright eight), an index up to 15
/// is itself, and any other index wraps modulo 16.
pub open spec fn spec_ansi16_index(idx: u32) -> u32 {
    if 30 <= idx <= 37 {
        (idx - 30) as u32
    } else if 40 <= idx <= 47 {
        (idx - 40) as u32
    } else if 90 <= idx <= 97 {
        (idx - 82) as u32
    } else if 100 <= idx <= 107 {
        (idx - 92) as u32
    } else if idx <= 15 {
        idx
    } else {
        idx % 16
    }
}


/// Under the 16-color profile a number gives a palette number from 0 to
/// 15, written in decimal, which reads back as that number.
pub proof fn law_ansi16_token(s: Seq<char>)
    requires
        spec_parse_u32(s) is Some,
    ensures
        spec_parse_u32(spec_resolve_token(s, ColorProfileKind::ANSI)) == Some(
            spec_ansi16_index(spec_parse_u32(s)->0),
        ),
        spec_ansi16_index(spec_parse_u32(s)->0) <= 15,
{
    let idx = spec_parse_u32(s)->0;
    law_decimal_round_trip(spec_ansi16_index(idx) as nat);
}

/// The palette number that an index stands for under the 16-color profile.
fn ansi16_index(idx: u32) -> (r: u32)
    ensures
        r == spec_ansi16_index(idx),
        r <= 15,
{
    if 30 <= idx && idx <= 37 {
        idx - 30
    } else if 40 <= idx && idx <= 47 {
        idx - 40
    } else if 90 <= idx && idx <= 97 {
        idx - 82
    } else if 100 <= idx && idx <= 107 {
        idx - 92
    } else if idx <= 15 {
        idx
    } else {
        idx % 16
    }
}

/// The token a color string stands for under a profile: nothing without
/// color; palette indices become hex under true color; under the 16-color
/// profile a number becomes a palette number from 0 to 15; hex colors become
/// the nearest palette index under the 256- and 16-color profiles; anything
/// else is passed through.
pub open spec fn spec_resolve_token(s: Seq<char>, profile: ColorProfileKind) -> Seq<char> {
    match profile {
        ColorProfileKind::NoColor => Seq::<char>::empty(),
        ColorProfileKind::TrueColor => match spec_parse_u32(s) {
            Some(idx) => {
                let c = spec_ansi256_to_rgb((idx % 256) as u8);
                spec_hex_rgb(c.0, c.1, c.2)
            },
            None => s,
        },
        ColorProfileKind::ANSI256 => match spec_parse_u32(s) {
            Some(idx) => spec_decimal((idx % 256) as nat),
            None => match spec_parse_hex_rgba(s) {
                Some(c) => spec_decimal(
                    spec_rgb_to_ansi256(c.0 as u8, c.1 as u8, c.2 as u8) as nat,
                ),
                None => s,
            },
        },
        ColorProfileKind::ANSI => match spec_parse_u32(s) {
            Some(idx) => spec_decimal(spec_ansi16_index(idx) as nat),
            None => match spec_parse_hex_rgba(s) {
                Some(c) => spec_decimal(
                    spec_rgb_to_ansi16(c.0 as u8, c.1 as u8, c.2 as u8) as nat,
                ),
                None => s,
            },
        },
    }
}

/// The token that a color string stands for under a color profile.
pub fn resolve_color_token_for_profile(s: &str, profile: ColorProfileKind) -> (t: String)
    ensures
        t@ == spec_resolve_token(s@, profile),
{
    let cs = chars_of(s);
    match profile {
        ColorProfileKind::NoColor => String::new(),
        ColorProfileKind::TrueColor => match parse_u32(cs.as_slice()) {
            Some(idx) => {
                let (r, g, b) = ansi256_to_rgb_u8((idx % 256) as u8);
                let v = hex_rgb_chars(r, g, b);
                string_from_chars(v.as_slice())
            },
            None => string_from_chars(cs.as_slice()),
        },
        ColorProfileKind::ANSI256 => match parse_u32(cs.as_slice()) {
            Some(idx) => string_from_chars(decimal_chars(idx % 256).as_slice()),
            None => match parse_hex_rgba(s) {
                Some((r, g, b, _a)) => {
                    let idx = rgb_to_ansi256(r as u8, g as u8, b as u8);
                    string_from_chars(decimal_chars(idx as u32).as_slice())
                },
                None => string_from_chars(cs.as_slice()),
            },
        },
        ColorProfileKind::ANSI => match parse_u32(cs.as_slice()) {
            Some(idx) => string_from_chars(decimal_chars(ansi16_index(idx)).as_slice()),
            None => match parse_hex_rgba(s) {
                Some((r, g, b, _a)) => {
                    let idx = rgb_to_ansi16(r as u8, g as u8, b as u8);
                    string_from_chars(decimal_chars(idx as u32).as_slice())
                },
                None => string_from_chars(cs.as_slice()),
            },
        },
    }
}

// ---------------------------------------------------------------------
// Color kinds
// ---------------------------------------------------------------------

/// A color that can render itself as a token for a terminal profile and
/// report its RGBA channels. What a color gives may depend on the profile
/// and on whether the background is dark, and on nothing else.
pub trait TerminalColor {
    /// The token under a profile and a background brightness.
    spec fn spec_token(&self, profile: ColorProfileKind, dark: bool) -> Seq<char>;

    /// The channels for a background brightness: 8-bit red, green and blue,
    /// 16-bit alpha.
    spec fn spec_rgba(&self, dark: bool) -> (u32, u32, u32, u32);

    /// The token for the renderer's profile and background.
    fn token(&self, r: &Renderer) -> (t: String)
        ensures
            t@ == self.spec_token(r.spec_color_profile(), r.spec_dark_background()),
    ;

    /// The channels, for the renderer's background.
    fn rgba_with(&self, r: &Renderer) -> (c: (u32, u32, u32, u32))
        ensures
            c == self.spec_rgba(r.spec_dark_background()),
    ;
}

/// The absence of a color: no token, opaque black.
#[derive(Debug, Clone, Copy, Default)]
pub struct NoColor;

/// A color given as a string: a hex color (`#RGB`, `#RRGGBB`, with or
/// without alpha) or an index into the 256-color palette.
#[derive(Debug, Clone, PartialEq, Eq)]
pub struct Color(pub String);

/// An index into the 256-color palette.
#[derive(Debug, Clone, Copy, PartialEq, Eq)]
pub struct ANSIColor(pub u32);

/// A pair of colors: one for light backgrounds, one for dark ones.
#[derive(Debug, Clone, PartialEq, Eq)]
#[allow(non_snake_case)]
pub struct AdaptiveColor {
    /// Used on light backgrounds.
    pub Light: String,
    /// Used on dark backgrounds.
    pub Dark: String,
}

/// A color spelled out for each profile; nothing is converted.
#[derive(Debug, Clone, PartialEq, Eq)]
#[allow(non_snake_case)]
pub struct CompleteColor {
    /// Used under true color.
    pub TrueColor: String,
    /// Used under the 256-color profile.
    pub ANSI256: String,
    /// Used under the 16-color profile.
    pub ANSI: String,
}

/// A complete color for light backgrounds and one for dark ones.
#[derive(Debug, Clone, PartialEq, Eq)]
pub struct CompleteAdaptiveColor {
    /// Used on light backgrounds.
    pub light: CompleteColor,
    /// Used on dark backgrounds.
    pub dark: CompleteColor,
}

/// The channels of a color string: a hex color (8-bit channels, 16-bit
/// alpha), else a palette index (opaque), else opaque black.
pub open spec fn spec_color_rgba(s: Seq<char>) -> (u32, u32, u32, u32) {
    match spec_parse_hex_rgba(s) {
        Some(c) => c,
        None => match spec_parse_u32(s) {
            Some(idx) => {
                let c = spec_ansi256_to_rgb((idx % 256) as u8);
                (c.0 as u32, c.1 as u32, c.2 as u32, 0xFFFFu32)
            },
            None => (0u32, 0u32, 0u32, 0xFFFFu32),
        },
    }
}

/// The channels of a color string.
fn color_string_rgba(s: &str) -> (c: (u32, u32, u32, u32))
    ensures
        c == spec_color_rgba(s@),
{
    match parse_hex_rgba(s) {
        Some(c) => c,
        None => {
            let cs = chars_of(s);
            match parse_u32(cs.as_slice()) {
                Some(idx) => {
                    let (r, g, b) = ansi256_to_rgb_u8((idx % 256) as u8);
                    (r as u32, g as u32, b as u32, 0xFFFF)
                },
                None => (0, 0, 0, 0xFFFF),
            }
        },
    }
}

impl NoColor {
    /// Opaque black.
    pub fn rgba(&self) -> (c: (u32, u32, u32, u32))
        ensures
            c == (0u32, 0u32, 0u32, 0xFFFFu32),
    {
        (0, 0, 0, 0xFFFF)
    }
}

impl TerminalColor for NoColor {
    open spec fn spec_token(&self, profile: ColorProfileKind, dark: bool) -> Seq<char> {
        Seq::<char>::empty()
    }

    open spec fn spec_rgba(&self, dark: bool) -> (u32, u32, u32, u32) {
        (0u32, 0u32, 0u32, 0xFFFFu32)
    }

    fn token(&self, r: &Renderer) -> (t: String) {
        String::new()
    }

    fn rgba_with(&self, r: &Renderer) -> (c: (u32, u32, u32, u32)) {
        self.rgba()
    }
}

impl Color {
    /// The color `#rrggbb`, or `#rrggbbaa` when not fully opaque.
    pub fn from_rgba(r: u8, g: u8, b: u8, a: u8) -> (c: Self)
        ensures
            c.0@ == spec_hex_rgba(r, g, b, a),
    {
        let mut v = hex_rgb_chars(r, g, b);
        if a != 255 {
            push_hex2(&mut v, a);
        }
        Color(string_from_chars(v.as_slice()))
    }

    /// The opaque color `#rrggbb`.
    pub fn from_rgb(r: u8, g: u8, b: u8) -> (c: Self)
        ensures
            c.0@ == spec_hex_rgb(r, g, b),
    {
        Self::from_rgba(r, g, b, 255)
    }

    /// The token of this color under the renderer's profile.
    pub fn token_for_renderer(&self, r: &Renderer) -> (t: String)
        ensures
            t@ == spec_resolve_token(self.0@, r.spec_color_profile()),
    {
        resolve_color_token_for_profile(self.0.as_str(), r.color_profile())
    }

    /// The channels: 8-bit red, green and blue, 16-bit alpha.
    pub fn rgba(&self) -> (c: (u32, u32, u32, u32))
        ensures
            c == spec_color_rgba(self.0@),
    {
        color_string_rgba(self.0.as_str())
    }

    /// The channels widened to 16 bits each (`v * 257`), so that 255 becomes
    /// 65535.
    pub fn rgba16(&self) -> (c: (u32, u32, u32, u32))
        ensures
            c == (match spec_parse_hex(self.0@) {
                Some(h) => (
                    (h.0 as nat * 257) as u32,
                    (h.1 as nat * 257) as u32,
                    (h.2 as nat * 257) as u32,
                    (h.3 as nat * 257) as u32,
                ),
                None => match spec_parse_u32(self.0@) {
                    Some(idx) => {
                        let p = spec_ansi256_to_rgb((idx % 256) as u8);
                        (
                            (p.0 as nat * 257) as u32,
                            (p.1 as nat * 257) as u32,
                            (p.2 as nat * 257) as u32,
                            0xFFFFu32,
                        )
                    },
                    None => (0u32, 0u32, 0u32, 0xFFFFu32),
                },
            }),
    {
        match parse_hex_chars(self.0.as_str()) {
            Some((r, g, b, a)) => (r as u32 * 257, g as u32 * 257, b as u32 * 257, a as u32 * 257),
            None => {
                let cs = chars_of(self.0.as_str());
                match parse_u32(cs.as_slice()) {
                    Some(idx) => {
                        let (r, g, b) = ansi256_to_rgb_u8((idx % 256) as u8);
                        (r as u32 * 257, g as u32 * 257, b as u32 * 257, 0xFFFF)
                    },
                    None => (0, 0, 0, 0xFFFF),
                }
            },
        }
    }
}

impl TerminalColor for Color {
    open spec fn spec_token(&self, profile: ColorProfileKind, dark: bool) -> Seq<char> {
        spec_resolve_token(self.0@, profile)
    }

    open spec fn spec_rgba(&self, dark: bool) -> (u32, u32, u32, u32) {
        spec_color_rgba(self.0@)
    }

    fn token(&self, r: &Renderer) -> (t: String) {
        self.token_for_renderer(r)
    }

    fn rgba_with(&self, r: &Renderer) -> (c: (u32, u32, u32, u32)) {
        self.rgba()
    }
}

impl TerminalColor for String {
    open spec fn spec_token(&self, profile: ColorProfileKind, dark: bool) -> Seq<char> {
        spec_resolve_token(self@, profile)
    }

    open spec fn spec_rgba(&self, dark: bool) -> (u32, u32, u32, u32) {
        spec_color_rgba(self@)
    }

    fn token(&self, r: &Renderer) -> (t: String) {
        resolve_color_token_for_profile(self.as_str(), r.color_profile())
    }

    fn rgba_with(&self, r: &Renderer) -> (c: (u32, u32, u32, u32)) {
        color_string_rgba(self.as_str())
    }
}

impl<'a> TerminalColor for &'a str {
    open spec fn spec_token(&self, profile: ColorProfileKind, dark: bool) -> Seq<char> {
        spec_resolve_token((*self)@, profile)
    }

    open spec fn spec_rgba(&self, dark: bool) -> (u32, u32, u32, u32) {
        spec_color_rgba((*self)@)
    }

    fn token(&self, r: &Renderer) -> (t: String) {
        resolve_color_token_for_profile(*self, r.color_profile())
    }

    fn rgba_with(&self, r: &Renderer) -> (c: (u32, u32, u32, u32)) {
        color_string_rgba(*self)
    }
}

impl ANSIColor {
    /// The channels of the palette entry, opaque.
    pub fn rgba(&self) -> (c: (u32, u32, u32, u32))
        ensures
            c == ({
                let p = spec_ansi256_to_rgb((self.0 % 256) as u8);
                (p.0 as u32, p.1 as u32, p.2 as u32, 0xFFFFu32)
            }),
    {
        let (r, g, b) = ansi256_to_rgb_u8((self.0 % 256) as u8);
        (r as u32, g as u32, b as u32, 0xFFFF)
    }
}

impl TerminalColor for ANSIColor {
    open spec fn spec_token(&self, profile: ColorProfileKind, dark: bool) -> Seq<char> {
        spec_decimal(self.0 as nat)
    }

    open spec fn spec_rgba(&self, dark: bool) -> (u32, u32, u32, u32) {
        let p = spec_ansi256_to_rgb((self.0 % 256) as u8);
        (p.0 as u32, p.1 as u32, p.2 as u32, 0xFFFFu32)
    }

    fn token(&self, r: &Renderer) -> (t: String) {
        string_from_chars(decimal_chars(self.0).as_slice())
    }

    fn rgba_with(&self, r: &Renderer) -> (c: (u32, u32, u32, u32)) {
        self.rgba()
    }
}

impl TerminalColor for AdaptiveColor {
    open spec fn spec_token(&self, profile: ColorProfileKind, dark: bool) -> Seq<char> {
        if dark {
            spec_resolve_token(self.Dark@, profile)
        } else {
            spec_resolve_token(self.Light@, profile)
        }
    }

    open spec fn spec_rgba(&self, dark: bool) -> (u32, u32, u32, u32) {
        if dark {
            spec_color_rgba(self.Dark@)
        } else {
            spec_color_rgba(self.Light@)
        }
    }

    fn token(&self, r: &Renderer) -> (t: String) {
        if r.has_dark_background() {
            resolve_color_token_for_profile(self.Dark.as_str(), r.color_profile())
        } else {
            resolve_color_token_for_profile(self.Light.as_str(), r.color_profile())
        }
    }

    fn rgba_with(&self, r: &Renderer) -> (c: (u32, u32, u32, u32)) {
        if r.has_dark_background() {
            color_string_rgba(self.Dark.as_str())
        } else {
            color_string_rgba(self.Light.as_str())
        }
    }
}

/// The field of a complete color for a profile (nothing without color).
pub open spec fn spec_complete_token(c: CompleteColor, profile: ColorProfileKind) -> Seq<char> {
    match profile {
        ColorProfileKind::TrueColor => c.TrueColor@,
        ColorProfileKind::ANSI256 => c.ANSI256@,
        ColorProfileKind::ANSI => c.ANSI@,
        ColorProfileKind::NoColor => Seq::<char>::empty(),
    }
}

/// Channels of a complete color: those of its true-color field, or opaque
/// black when that field is empty.
pub open spec fn spec_complete_rgba(c: CompleteColor) -> (u32, u32, u32, u32) {
    if c.TrueColor@.len() > 0 {
        spec_color_rgba(c.TrueColor@)
    } else {
        (0u32, 0u32, 0u32, 0xFFFFu32)
    }
}

impl CompleteColor {
    /// The channels of the true-color field (opaque black if it is empty).
    pub fn rgba(&self) -> (c: (u32, u32, u32, u32))
        ensures
            c == spec_complete_rgba(*self),
    {
        if !self.TrueColor.as_str().is_empty() {
            color_string_rgba(self.TrueColor.as_str())
        } else {
            (0, 0, 0, 0xFFFF)
        }
    }

    fn token_for(&self, profile: ColorProfileKind) -> (t: String)
        ensures
            t@ == spec_complete_token(*self, profile),
    {
        match profile {
            ColorProfileKind::TrueColor => self.TrueColor.clone(),
            ColorProfileKind::ANSI256 => self.ANSI256.clone(),
            ColorProfileKind::ANSI => self.ANSI.clone(),
            ColorProfileKind::NoColor => String::new(),
        }
    }
}

impl TerminalColor for CompleteColor {
    open spec fn spec_token(&self, profile: ColorProfileKind, dark: bool) -> Seq<char> {
        spec_complete_token(*self, profile)
    }

    open spec fn spec_rgba(&self, dark: bool) -> (u32, u32, u32, u32) {
        spec_complete_rgba(*self)
    }

    fn token(&self, r: &Renderer) -> (t: String) {
        self.token_for(r.color_profile())
    }

    fn rgba_with(&self, r: &Renderer) -> (c: (u32, u32, u32, u32)) {
        self.rgba()
    }
}

impl TerminalColor for CompleteAdaptiveColor {
    open spec fn spec_token(&self, profile: ColorProfileKind, dark: bool) -> Seq<char> {
        if dark {
            spec_complete_token(self.dark, profile)
        } else {
            spec_complete_token(self.light, profile)
        }
    }

    open spec fn spec_rgba(&self, dark: bool) -> (u32, u32, u32, u32) {
        if dark {
            spec_complete_rgba(self.dark)
        } else {
            spec_complete_rgba(self.light)
        }
    }

    fn token(&self, r: &Renderer) -> (t: String) {
        if r.has_dark_background() {
            self.dark.token_for(r.color_profile())
        } else {
            self.light.token_for(r.color_profile())
        }
    }

    fn rgba_with(&self, r: &Renderer) -> (c: (u32, u32, u32, u32)) {
        if r.has_dark_background() {
            self.dark.rgba()
        } else {
            self.light.rgba()
        }
    }
}

// ---------------------------------------------------------------------
// Helpers
// ---------------------------------------------------------------------

/// `v` kept within `low..=high` (`low` wins if the bounds cross).
pub open spec fn spec_clamp(v: int, low: int, high: int) -> int {
    if v < low {
        low
    } else if v > high {
        high
    } else {
        v
    }
}

/// `v` kept within `low..=high`.
pub fn clamp(v: i64, low: i64, high: i64) -> (r: i64)
    ensures
        r == spec_clamp(v as int, low as int, high as int),
{
    if v < low {
        low
    } else if v > high {
        high
    } else {
        v
    }
}

/// Whether channels describe a dark color: luminance
/// `0.299 r + 0.587 g + 0.114 b` below the midpoint 127.5, computed exactly.
pub open spec fn spec_is_dark(c: (u32, u32, u32, u32)) -> bool {
    299 * c.0 + 587 * c.1 + 114 * c.2 < 127500
}

/// Whether a color is dark (its luminance is below the midpoint), its
/// channels read for the renderer's background.
pub fn is_dark_color<C: TerminalColor>(color: &C, r: &Renderer) -> (d: bool)
    ensures
        d == spec_is_dark(color.spec_rgba(r.spec_dark_background())),
{
    let (cr, cg, cb, _a) = color.rgba_with(r);
    let lum: u128 = 299 * (cr as u128) + 587 * (cg as u128) + 114 * (cb as u128);
    lum < 127500
}

/// The opaque color with the low bytes of the red, green and blue channels.
pub open spec fn spec_opaque_hex(c: (u32, u32, u32, u32)) -> Seq<char> {
    spec_hex_rgb(c.0 as u8, c.1 as u8, c.2 as u8)
}

fn opaque_color_of(c: (u32, u32, u32, u32)) -> (r: Color)
    ensures
        r.0@ == spec_opaque_hex(c),
{
    let v = hex_rgb_chars(c.0 as u8, c.1 as u8, c.2 as u8);
    Color(string_from_chars(v.as_slice()))
}

/// Chooses between a light-background color and a dark-background one.
#[derive(Debug, Clone, Copy)]
pub struct LightDarkFunc {
    /// Whether the dark-background color is chosen.
    pub is_dark: bool,
}

/// A chooser that picks the dark color when `is_dark`, else the light one.
pub fn light_dark(is_dark: bool) -> (f: LightDarkFunc)
    ensures
        f.is_dark == is_dark,
{
    LightDarkFunc { is_dark }
}

impl LightDarkFunc {
    /// The chosen color, made opaque `#rrggbb`; channels are read for the
    /// renderer's background.
    pub fn call<L: TerminalColor, D: TerminalColor>(&self, light: &L, dark: &D, r: &Renderer) -> (c: Color)
        ensures
            c.0@ == (if self.is_dark {
                spec_opaque_hex(dark.spec_rgba(r.spec_dark_background()))
            } else {
                spec_opaque_hex(light.spec_rgba(r.spec_dark_background()))
            }),
    {
        if self.is_dark {
            opaque_color_of(dark.rgba_with(r))
        } else {
            opaque_color_of(light.rgba_with(r))
        }
    }
}

/// Chooses among colors given for each profile.
#[derive(Debug, Clone, Copy)]
pub struct CompleteFunc {
    /// The profile whose color is chosen.
    pub profile: ColorProfileKind,
}

/// A chooser that picks the color for `profile`.
pub fn complete(profile: ColorProfileKind) -> (f: CompleteFunc)
    ensures
        f.profile == profile,
{
    CompleteFunc { profile }
}

impl CompleteFunc {
    /// The color for the profile, made opaque `#rrggbb`; the empty color
    /// without color support.
    pub fn call<A: TerminalColor, B: TerminalColor, T: TerminalColor>(
        &self,
        ansi: &A,
        ansi256: &B,
        truecolor: &T,
        r: &Renderer,
    ) -> (c: Color)
        ensures
            c.0@ == (match self.profile {
                ColorProfileKind::ANSI => spec_opaque_hex(ansi.spec_rgba(r.spec_dark_background())),
                ColorProfileKind::ANSI256 => spec_opaque_hex(
                    ansi256.spec_rgba(r.spec_dark_background()),
                ),
                ColorProfileKind::TrueColor => spec_opaque_hex(
                    truecolor.spec_rgba(r.spec_dark_background()),
                ),
                ColorProfileKind::NoColor => Seq::<char>::empty(),
            }),
    {
        match self.profile {
            ColorProfileKind::ANSI => opaque_color_of(ansi.rgba_with(r)),
            ColorProfileKind::ANSI256 => opaque_color_of(ansi256.rgba_with(r)),
            ColorProfileKind::TrueColor => opaque_color_of(truecolor.rgba_with(r)),
            ColorProfileKind::NoColor => Color(String::new()),
        }
    }
}

// ---------------------------------------------------------------------
// Writing and reading hex colors
// ---------------------------------------------------------------------

/// The string `from_rgba` writes for the channels.
pub open spec fn spec_hex_rgba(r: u8, g: u8, b: u8, a: u8) -> Seq<char> {
    if a == 255 {
        spec_hex_rgb(r, g, b)
    } else {
        spec_hex_rgb(r, g, b) + spec_hex2(a)
    }
}

proof fn lemma_digit_char_value(d: nat)
    requires
        d < 16,
    ensures
        hex_value(digit_char(d)) == Some(d),
        !is_unicode_whitespace(digit_char(d)),
        digit_char(d) != '+',
{
}

/// A byte written as two hex digits reads back as itself.
pub proof fn lemma_hex2_round_trip(b: u8)
    ensures
        spec_hex_digits(spec_hex2(b)) == Some(b),
{
    let hi = (b / 16) as nat;
    let lo = (b % 16) as nat;
    lemma_digit_char_value(hi);
    lemma_digit_char_value(lo);
    assert(hi * 16 + lo == b);
}

/// A color written by `from_rgba` (`#rrggbb`, or `#rrggbbaa` when not
/// opaque) parses back to exactly the channels it was made from.
pub proof fn law_hex_round_trip(r: u8, g: u8, b: u8, a: u8)
    ensures
        spec_parse_hex(spec_hex_rgba(r, g, b, a)) == Some((r, g, b, a)),
{
    let s = spec_hex_rgba(r, g, b, a);
    lemma_digit_char_value((r / 16) as nat);
    lemma_digit_char_value((r % 16) as nat);
    lemma_digit_char_value((g / 16) as nat);
    lemma_digit_char_value((g % 16) as nat);
    lemma_digit_char_value((b / 16) as nat);
    lemma_digit_char_value((b % 16) as nat);
    lemma_digit_char_value((a / 16) as nat);
    lemma_digit_char_value((a % 16) as nat);
    lemma_hex2_round_trip(r);
    lemma_hex2_round_trip(g);
    lemma_hex2_round_trip(b);
    lemma_hex2_round_trip(a);
    assert(s[0] == '#');
    assert(leading_ws(s) == 0);
    assert(!is_unicode_whitespace(s.last()));
    assert(trailing_ws(s) == 0);
    assert(s.skip(0) =~= s);
    assert(spec_trim(s) =~= s);
    let h = s.drop_first();
    assert(h.subrange(0, 2) =~= spec_hex2(r));
    assert(h.subrange(2, 4) =~= spec_hex2(g));
    assert(h.subrange(4, 6) =~= spec_hex2(b));
    if a != 255 {
        assert(h.subrange(6, 8) =~= spec_hex2(a));
    }
}

} // verus!
