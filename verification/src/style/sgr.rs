//! The SGR parameters a style renders with: text attributes and the
//! foreground and background colors under a color profile, and the
//! parameters of each border edge.

use vstd::prelude::*;
use crate::color::{parse_hex_rgba, rgb_to_ansi16, rgb_to_ansi256, spec_parse_hex_rgba, spec_rgb_to_ansi16, spec_rgb_to_ansi256};
use crate::renderer::ColorProfileKind;
use crate::strings::{append_chars, chars_of, decimal_chars, parse_u32, spec_decimal, spec_parse_u32};
use crate::style::data::{Style, TextTransform};
use crate::style::keys::{
    ATTR_BLINK, ATTR_BOLD, ATTR_FAINT, ATTR_ITALIC, ATTR_REVERSE, ATTR_STRIKETHROUGH, ATTR_UNDERLINE,
    BACKGROUND_KEY, BLINK_KEY, BOLD_KEY, FAINT_KEY, FOREGROUND_KEY, ITALIC_KEY, REVERSE_KEY,
    STRIKETHROUGH_KEY, UNDERLINE_KEY,
};

verus! {

/// `p` followed by `;` and the decimal digits of each value.
pub open spec fn with_numbers(p: Seq<char>, vs: Seq<nat>) -> Seq<char>
    decreases vs.len(),
{
    if vs.len() == 0 {
        p
    } else {
        with_numbers(p, vs.drop_last()) + seq![';'] + spec_decimal(vs.last())
    }
}

/// `38;2;r;g;b` (base 38) or `48;2;r;g;b` (base 48).
pub open spec fn rgb_param(base: Seq<char>, r: u32, g: u32, b: u32) -> Seq<char> {
    base + seq![';', '2', ';'] + spec_decimal(r as nat) + seq![';'] + spec_decimal(g as nat) + seq![';']
        + spec_decimal(b as nat)
}

/// `38;5;n` (base 38) or `48;5;n` (base 48).
pub open spec fn indexed_param(base: Seq<char>, n: nat) -> Seq<char> {
    base + seq![';', '5', ';'] + spec_decimal(n)
}

/// The 16-color code for a palette index: `lo + idx` for 0–7, `hi + idx`
/// for 8–15, the index itself when it already is a code of the range
/// (`direct_lo..=direct_lo+7` or `direct_hi..=direct_hi+7`), else `default`.
pub open spec fn ansi16_code(idx: nat, lo: nat, hi: nat, direct_lo: nat, direct_hi: nat, default: nat) -> nat {
    if idx <= 7 {
        lo + idx
    } else if idx <= 15 {
        hi + idx
    } else if direct_lo <= idx <= direct_lo + 7 {
        idx
    } else if direct_hi <= idx <= direct_hi + 7 {
        idx
    } else {
        default
    }
}

/// The parameter a foreground token gives under a profile, if any: hex
/// colors as 24-bit colors under true color and `38;5;0` otherwise,
/// palette indices as 16-color codes or `38;5;n`.
pub open spec fn fg_param(tok: Seq<char>, p: ColorProfileKind) -> Option<Seq<char>> {
    if tok.len() > 0 && tok[0] == '#' {
        match spec_parse_hex_rgba(tok) {
            Some(c) => match p {
                ColorProfileKind::TrueColor => Some(rgb_param(seq!['3', '8'], c.0, c.1, c.2)),
                ColorProfileKind::ANSI | ColorProfileKind::ANSI256 => Some(seq!['3', '8', ';', '5', ';', '0']),
                ColorProfileKind::NoColor => None,
            },
            None => None,
        }
    } else {
        match spec_parse_u32(tok) {
            Some(n) => {
                let idx = (n % 256) as nat;
                match p {
                    ColorProfileKind::ANSI => Some(spec_decimal(ansi16_code(idx, 30, 82, 30, 90, 39))),
                    ColorProfileKind::NoColor => None,
                    _ => Some(indexed_param(seq!['3', '8'], idx)),
                }
            },
            None => None,
        }
    }
}

/// The parameter a background token gives under a profile, if any: hex
/// colors as 24-bit colors, the nearest 256-color index or the nearest
/// 16-color code; palette indices as 16-color codes or `48;5;n`.
pub open spec fn bg_param(tok: Seq<char>, p: ColorProfileKind) -> Option<Seq<char>> {
    if tok.len() > 0 && tok[0] == '#' {
        match spec_parse_hex_rgba(tok) {
            Some(c) => match p {
                ColorProfileKind::TrueColor => Some(rgb_param(seq!['4', '8'], c.0, c.1, c.2)),
                ColorProfileKind::ANSI256 => Some(
                    indexed_param(seq!['4', '8'], spec_rgb_to_ansi256(c.0 as u8, c.1 as u8, c.2 as u8) as nat),
                ),
                ColorProfileKind::ANSI => Some(
                    spec_decimal(40 + spec_rgb_to_ansi16(c.0 as u8, c.1 as u8, c.2 as u8) as nat),
                ),
                ColorProfileKind::NoColor => None,
            },
            None => None,
        }
    } else {
        match spec_parse_u32(tok) {
            Some(n) => {
                let idx = (n % 256) as nat;
                match p {
                    ColorProfileKind::ANSI => Some(spec_decimal(ansi16_code(idx, 40, 92, 40, 100, 49))),
                    ColorProfileKind::NoColor => None,
                    _ => Some(indexed_param(seq!['4', '8'], idx)),
                }
            },
            None => None,
        }
    }
}

/// `ps` with `o`'s value added when there is one.
pub open spec fn push_opt(ps: Seq<Seq<char>>, o: Option<Seq<char>>) -> Seq<Seq<char>> {
    match o {
        Some(x) => ps.push(x),
        None => ps,
    }
}

/// `ps` with `x` added when `c` holds.
pub open spec fn push_if(ps: Seq<Seq<char>>, c: bool, x: Seq<char>) -> Seq<Seq<char>> {
    if c { ps.push(x) } else { ps }
}

/// The SGR parameters of a style under a profile: bold, faint, italic,
/// underline, blink, reverse, strikethrough, then the foreground and the
/// background (colors only when the profile has any).
pub open spec fn style_sgr<T>(st: Style<T>, p: ColorProfileKind) -> Seq<Seq<char>> {
    let s0 = Seq::<Seq<char>>::empty();
    let s1 = push_if(s0, st.flag(BOLD_KEY, ATTR_BOLD), seq!['1']);
    let s2 = push_if(s1, st.flag(FAINT_KEY, ATTR_FAINT), seq!['2']);
    let s3 = push_if(s2, st.flag(ITALIC_KEY, ATTR_ITALIC), seq!['3']);
    let s4 = push_if(s3, st.flag(UNDERLINE_KEY, ATTR_UNDERLINE), seq!['4']);
    let s5 = push_if(s4, st.flag(BLINK_KEY, ATTR_BLINK), seq!['5']);
    let s6 = push_if(s5, st.flag(REVERSE_KEY, ATTR_REVERSE), seq!['7']);
    let s7 = push_if(s6, st.flag(STRIKETHROUGH_KEY, ATTR_STRIKETHROUGH), seq!['9']);
    let s8 = if p != ColorProfileKind::NoColor && st.has(FOREGROUND_KEY) && st.fg_color is Some {
        push_opt(s7, fg_param(st.fg_color->0@, p))
    } else {
        s7
    };
    if p != ColorProfileKind::NoColor && st.has(BACKGROUND_KEY) && st.bg_color is Some {
        push_opt(s8, bg_param(st.bg_color->0@, p))
    } else {
        s8
    }
}

/// The parameter a border's foreground token gives: hex colors always as
/// 24-bit colors (`38;5;0` when unreadable), palette indices as 16-color
/// codes under the 16-color profile and `38;5;n` otherwise.
pub open spec fn edge_fg_param(tok: Seq<char>, p: ColorProfileKind) -> Option<Seq<char>> {
    if tok.len() > 0 && tok[0] == '#' {
        match spec_parse_hex_rgba(tok) {
            Some(c) => Some(rgb_param(seq!['3', '8'], c.0, c.1, c.2)),
            None => Some(seq!['3', '8', ';', '5', ';', '0']),
        }
    } else {
        match spec_parse_u32(tok) {
            Some(n) => {
                let idx = (n % 256) as nat;
                if p == ColorProfileKind::ANSI {
                    Some(spec_decimal(ansi16_code(idx, 30, 82, 30, 90, 39)))
                } else {
                    Some(indexed_param(seq!['3', '8'], idx))
                }
            },
            None => None,
        }
    }
}

/// The parameter a border's background token gives (as for the
/// foreground, with base 48 and codes 40–47, 100–107, 49).
pub open spec fn edge_bg_param(tok: Seq<char>, p: ColorProfileKind) -> Option<Seq<char>> {
    if tok.len() > 0 && tok[0] == '#' {
        match spec_parse_hex_rgba(tok) {
            Some(c) => Some(rgb_param(seq!['4', '8'], c.0, c.1, c.2)),
            None => Some(seq!['4', '8', ';', '5', ';', '0']),
        }
    } else {
        match spec_parse_u32(tok) {
            Some(n) => {
                let idx = (n % 256) as nat;
                if p == ColorProfileKind::ANSI {
                    Some(spec_decimal(ansi16_code(idx, 40, 92, 40, 100, 49)))
                } else {
                    Some(indexed_param(seq!['4', '8'], idx))
                }
            },
            None => None,
        }
    }
}

/// The parts joined with `sep` between them.
pub open spec fn join_sep(parts: Seq<Seq<char>>, sep: char) -> Seq<char>
    decreases parts.len(),
{
    if parts.len() == 0 {
        Seq::<char>::empty()
    } else if parts.len() == 1 {
        parts[0]
    } else {
        join_sep(parts.drop_last(), sep).push(sep) + parts.last()
    }
}

/// `ESC [ params m`, or nothing when there are no parameters.
pub open spec fn sgr_seq(parts: Seq<Seq<char>>) -> Seq<char> {
    if parts.len() == 0 {
        Seq::<char>::empty()
    } else {
        seq!['\u{1b}', '['] + join_sep(parts, ';') + seq!['m']
    }
}

/// The escape sequence for one border edge: its own colors, or the style's
/// when no edge sets that kind of color; nothing without a color profile.
pub open spec fn edge_sgr(
    fg: Option<Seq<char>>,
    bg: Option<Seq<char>>,
    p: ColorProfileKind,
) -> Seq<char> {
    if p == ColorProfileKind::NoColor {
        Seq::<char>::empty()
    } else {
        let s0 = Seq::<Seq<char>>::empty();
        let s1 = match fg {
            Some(t) => push_opt(s0, edge_fg_param(t, p)),
            None => s0,
        };
        let s2 = match bg {
            Some(t) => push_opt(s1, edge_bg_param(t, p)),
            None => s1,
        };
        sgr_seq(s2)
    }
}

// ---------------------------------------------------------------------
// Computing the parameters
// ---------------------------------------------------------------------

/// Appends `;` and the decimal digits of `n`.
fn push_number(v: &mut Vec<char>, n: u32)
    ensures
        final(v)@ == old(v)@ + seq![';'] + spec_decimal(n as nat),
{
    v.push(';');
    let d = decimal_chars(n);
    append_chars(v, d.as_slice());
}

fn rgb_param_exec(base: char, r: u32, g: u32, b: u32) -> (v: Vec<char>)
    requires
        base == '3' || base == '4',
    ensures
        v@ == rgb_param(seq![base, '8'], r, g, b),
{
    let mut v: Vec<char> = Vec::new();
    v.push(base);
    v.push('8');
    v.push(';');
    v.push('2');
    push_number(&mut v, r);
    push_number(&mut v, g);
    push_number(&mut v, b);
    assert(v@ =~= rgb_param(seq![base, '8'], r, g, b));
    v
}

fn indexed_param_exec(base: char, n: u32) -> (v: Vec<char>)
    ensures
        v@ == indexed_param(seq![base, '8'], n as nat),
{
    let mut v: Vec<char> = Vec::new();
    v.push(base);
    v.push('8');
    v.push(';');
    v.push('5');
    push_number(&mut v, n);
    assert(v@ =~= indexed_param(seq![base, '8'], n as nat));
    v
}

fn ansi16_code_exec(idx: u32, lo: u32, hi: u32, direct_lo: u32, direct_hi: u32, default: u32) -> (c: u32)
    requires
        idx < 256,
        lo <= 100,
        hi <= 100,
        direct_lo <= 200,
        direct_hi <= 200,
    ensures
        c == ansi16_code(idx as nat, lo as nat, hi as nat, direct_lo as nat, direct_hi as nat, default as nat),
{
    if idx <= 7 {
        lo + idx
    } else if idx <= 15 {
        hi + idx
    } else if direct_lo <= idx && idx <= direct_lo + 7 {
        idx
    } else if direct_hi <= idx && idx <= direct_hi + 7 {
        idx
    } else {
        default
    }
}

/// The foreground parameter of a token under a profile.
pub fn fg_param_exec(tok: &str, p: ColorProfileKind) -> (r: Option<Vec<char>>)
    ensures
        match r {
            Some(v) => fg_param(tok@, p) == Some(v@),
            None => fg_param(tok@, p) is None,
        },
{
    let cs = chars_of(tok);
    if cs.len() > 0 && cs[0] == '#' {
        match parse_hex_rgba(tok) {
            Some((r, g, b, _a)) => match p {
                ColorProfileKind::TrueColor => Some(rgb_param_exec('3', r, g, b)),
                ColorProfileKind::ANSI | ColorProfileKind::ANSI256 => {
                    let mut v: Vec<char> = Vec::new();
                    v.push('3');
                    v.push('8');
                    v.push(';');
                    v.push('5');
                    v.push(';');
                    v.push('0');
                    assert(v@ =~= seq!['3', '8', ';', '5', ';', '0']);
                    Some(v)
                },
                ColorProfileKind::NoColor => None,
            },
            None => None,
        }
    } else {
        match parse_u32(cs.as_slice()) {
            Some(n) => {
                let idx = n % 256;
                match p {
                    ColorProfileKind::ANSI => Some(decimal_chars(ansi16_code_exec(idx, 30, 82, 30, 90, 39))),
                    ColorProfileKind::NoColor => None,
                    _ => Some(indexed_param_exec('3', idx)),
                }
            },
            None => None,
        }
    }
}

/// The background parameter of a token under a profile.
pub fn bg_param_exec(tok: &str, p: ColorProfileKind) -> (r: Option<Vec<char>>)
    ensures
        match r {
            Some(v) => bg_param(tok@, p) == Some(v@),
            None => bg_param(tok@, p) is None,
        },
{
    let cs = chars_of(tok);
    if cs.len() > 0 && cs[0] == '#' {
        match parse_hex_rgba(tok) {
            Some((r, g, b, _a)) => match p {
                ColorProfileKind::TrueColor => Some(rgb_param_exec('4', r, g, b)),
                ColorProfileKind::ANSI256 => {
                    let idx = rgb_to_ansi256(r as u8, g as u8, b as u8);
                    Some(indexed_param_exec('4', idx as u32))
                },
                ColorProfileKind::ANSI => {
                    let idx = rgb_to_ansi16(r as u8, g as u8, b as u8);
                    Some(decimal_chars(40 + idx as u32))
                },
                ColorProfileKind::NoColor => None,
            },
            None => None,
        }
    } else {
        match parse_u32(cs.as_slice()) {
            Some(n) => {
                let idx = n % 256;
                match p {
                    ColorProfileKind::ANSI => Some(decimal_chars(ansi16_code_exec(idx, 40, 92, 40, 100, 49))),
                    ColorProfileKind::NoColor => None,
                    _ => Some(indexed_param_exec('4', idx)),
                }
            },
            None => None,
        }
    }
}

/// The foreground parameter of a border token under a profile.
pub fn edge_fg_param_exec(tok: &str, p: ColorProfileKind) -> (r: Option<Vec<char>>)
    ensures
        match r {
            Some(v) => edge_fg_param(tok@, p) == Some(v@),
            None => edge_fg_param(tok@, p) is None,
        },
{
    let cs = chars_of(tok);
    if cs.len() > 0 && cs[0] == '#' {
        match parse_hex_rgba(tok) {
            Some((r, g, b, _a)) => Some(rgb_param_exec('3', r, g, b)),
            None => {
                let mut v: Vec<char> = Vec::new();
                v.push('3');
                v.push('8');
                v.push(';');
                v.push('5');
                v.push(';');
                v.push('0');
                assert(v@ =~= seq!['3', '8', ';', '5', ';', '0']);
                Some(v)
            },
        }
    } else {
        match parse_u32(cs.as_slice()) {
            Some(n) => {
                let idx = n % 256;
                if p == ColorProfileKind::ANSI {
                    Some(decimal_chars(ansi16_code_exec(idx, 30, 82, 30, 90, 39)))
                } else {
                    Some(indexed_param_exec('3', idx))
                }
            },
            None => None,
        }
    }
}

/// The background parameter of a border token under a profile.
pub fn edge_bg_param_exec(tok: &str, p: ColorProfileKind) -> (r: Option<Vec<char>>)
    ensures
        match r {
            Some(v) => edge_bg_param(tok@, p) == Some(v@),
            None => edge_bg_param(tok@, p) is None,
        },
{
    let cs = chars_of(tok);
    if cs.len() > 0 && cs[0] == '#' {
        match parse_hex_rgba(tok) {
            Some((r, g, b, _a)) => Some(rgb_param_exec('4', r, g, b)),
            None => {
                let mut v: Vec<char> = Vec::new();
                v.push('4');
                v.push('8');
                v.push(';');
                v.push('5');
                v.push(';');
                v.push('0');
                assert(v@ =~= seq!['4', '8', ';', '5', ';', '0']);
                Some(v)
            },
        }
    } else {
        match parse_u32(cs.as_slice()) {
            Some(n) => {
                let idx = n % 256;
                if p == ColorProfileKind::ANSI {
                    Some(decimal_chars(ansi16_code_exec(idx, 40, 92, 40, 100, 49)))
                } else {
                    Some(indexed_param_exec('4', idx))
                }
            },
            None => None,
        }
    }
}

/// The parameters joined into `ESC [ ... m` (nothing when there are none).
pub fn sgr_seq_exec(parts: &Vec<Vec<char>>) -> (r: Vec<char>)
    ensures
        r@ == sgr_seq(parts@.map_values(|v: Vec<char>| v@)),
{
    let ghost pv = parts@.map_values(|v: Vec<char>| v@);
    let mut r: Vec<char> = Vec::new();
    if parts.len() == 0 {
        return r;
    }
    r.push('\u{1b}');
    r.push('[');
    let ghost head = r@;
    let mut i: usize = 0;
    assert(pv.take(0) =~= Seq::<Seq<char>>::empty());
    while i < parts.len()
        invariant
            i <= parts.len(),
            pv == parts@.map_values(|v: Vec<char>| v@),
            head == seq!['\u{1b}', '['],
            r@ == head + join_sep(pv.take(i as int), ';'),
        decreases parts.len() - i,
    {
        assert(pv.take(i + 1).drop_last() =~= pv.take(i as int));
        assert(pv.take(i + 1).last() == parts[i as int]@);
        if i > 0 {
            r.push(';');
        }
        append_chars(&mut r, parts[i].as_slice());
        i = i + 1;
        assert(r@ =~= head + join_sep(pv.take(i as int), ';'));
    }
    assert(pv.take(parts.len() as int) =~= pv);
    r.push('m');
    assert(r@ =~= sgr_seq(pv));
    r
}

fn push_param(ps: &mut Vec<Vec<char>>, x: Vec<char>)
    ensures
        final(ps)@.map_values(|v: Vec<char>| v@) == old(ps)@.map_values(|v: Vec<char>| v@).push(x@),
{
    let ghost before = ps@.map_values(|v: Vec<char>| v@);
    let ghost xv = x@;
    ps.push(x);
    assert(ps@.map_values(|v: Vec<char>| v@) =~= before.push(xv));
}

fn push_one(ps: &mut Vec<Vec<char>>, c: char)
    ensures
        final(ps)@.map_values(|v: Vec<char>| v@) == old(ps)@.map_values(|v: Vec<char>| v@).push(seq![c]),
{
    let mut x: Vec<char> = Vec::new();
    x.push(c);
    assert(x@ =~= seq![c]);
    push_param(ps, x);
}

/// The SGR parameters of a style under a profile.
pub fn style_sgr_exec<T: TextTransform>(st: &Style<T>, p: ColorProfileKind) -> (r: Vec<Vec<char>>)
    ensures
        r@.map_values(|v: Vec<char>| v@) == style_sgr(*st, p),
{
    let mut ps: Vec<Vec<char>> = Vec::new();
    assert(ps@.map_values(|v: Vec<char>| v@) =~= Seq::<Seq<char>>::empty());
    if st.get_bold() {
        push_one(&mut ps, '1');
    }
    if st.get_faint() {
        push_one(&mut ps, '2');
    }
    if st.get_italic() {
        push_one(&mut ps, '3');
    }
    if st.get_underline() {
        push_one(&mut ps, '4');
    }
    if st.get_blink() {
        push_one(&mut ps, '5');
    }
    if st.get_reverse() {
        push_one(&mut ps, '7');
    }
    if st.get_strikethrough() {
        push_one(&mut ps, '9');
    }
    if p != ColorProfileKind::NoColor && st.is_set(FOREGROUND_KEY) {
        match &st.fg_color {
            Some(tok) => match fg_param_exec(tok.as_str(), p) {
                Some(x) => push_param(&mut ps, x),
                None => {},
            },
            None => {},
        }
    }
    if p != ColorProfileKind::NoColor && st.is_set(BACKGROUND_KEY) {
        match &st.bg_color {
            Some(tok) => match bg_param_exec(tok.as_str(), p) {
                Some(x) => push_param(&mut ps, x),
                None => {},
            },
            None => {},
        }
    }
    ps
}

/// The escape sequence for one border edge.
pub fn edge_sgr_exec(fg: Option<&String>, bg: Option<&String>, p: ColorProfileKind) -> (r: Vec<char>)
    ensures
        r@ == edge_sgr(
            match fg {
                Some(t) => Some(t@),
                None => None,
            },
            match bg {
                Some(t) => Some(t@),
                None => None,
            },
            p,
        ),
{
    if p == ColorProfileKind::NoColor {
        return Vec::new();
    }
    let mut ps: Vec<Vec<char>> = Vec::new();
    assert(ps@.map_values(|v: Vec<char>| v@) =~= Seq::<Seq<char>>::empty());
    match fg {
        Some(t) => match edge_fg_param_exec(t.as_str(), p) {
            Some(x) => push_param(&mut ps, x),
            None => {},
        },
        None => {},
    }
    match bg {
        Some(t) => match edge_bg_param_exec(t.as_str(), p) {
            Some(x) => push_param(&mut ps, x),
            None => {},
        },
        None => {},
    }
    sgr_seq_exec(&ps)
}

} // verus!
