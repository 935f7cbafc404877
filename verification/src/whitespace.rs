//! Filler whitespace: a run of characters cycled to a given width, with an
//! optional set of SGR attributes (colors, underline, strikethrough).

use vstd::prelude::*;
use crate::color::TerminalColor;
use crate::renderer::{ColorProfileKind, Renderer};
use crate::security::{capped_repeat, safe_repeat};
use crate::strings::{
    chars_of, decimal_chars, parse_hex_u8, push_char, push_chars, push_str, spec_decimal,
    spec_hex_u8, string_from_chars,
};
use crate::utils::{visible_width, width, width_visible, spec_display_width};

verus! {

/// A color's token under each profile and background brightness, taken
/// when an option is made and read when it is applied.
#[derive(Debug, Clone)]
pub struct ColorTokens {
    true_light: String,
    true_dark: String,
    c256_light: String,
    c256_dark: String,
    ansi_light: String,
    ansi_dark: String,
    none_light: String,
    none_dark: String,
}

impl ColorTokens {
    /// The token for a profile and background.
    pub closed spec fn spec_get(&self, p: ColorProfileKind, dark: bool) -> Seq<char> {
        match p {
            ColorProfileKind::TrueColor => if dark { self.true_dark@ } else { self.true_light@ },
            ColorProfileKind::ANSI256 => if dark { self.c256_dark@ } else { self.c256_light@ },
            ColorProfileKind::ANSI => if dark { self.ansi_dark@ } else { self.ansi_light@ },
            ColorProfileKind::NoColor => if dark { self.none_dark@ } else { self.none_light@ },
        }
    }

    /// The tokens of a color under every profile and background.
    pub fn of<C: TerminalColor>(c: &C) -> (t: Self)
        ensures
            forall|p: ColorProfileKind, d: bool| #[trigger] t.spec_get(p, d) == c.spec_token(p, d),
    {
        let mut r = Renderer::new();
        r.set_color_profile(ColorProfileKind::TrueColor);
        r.set_has_dark_background(false);
        let true_light = c.token(&r);
        r.set_has_dark_background(true);
        let true_dark = c.token(&r);
        r.set_color_profile(ColorProfileKind::ANSI256);
        let c256_dark = c.token(&r);
        r.set_has_dark_background(false);
        let c256_light = c.token(&r);
        r.set_color_profile(ColorProfileKind::ANSI);
        let ansi_light = c.token(&r);
        r.set_has_dark_background(true);
        let ansi_dark = c.token(&r);
        r.set_color_profile(ColorProfileKind::NoColor);
        let none_dark = c.token(&r);
        r.set_has_dark_background(false);
        let none_light = c.token(&r);
        ColorTokens {
            true_light,
            true_dark,
            c256_light,
            c256_dark,
            ansi_light,
            ansi_dark,
            none_light,
            none_dark,
        }
    }

    /// The token for a renderer.
    pub fn get(&self, r: &Renderer) -> (t: String)
        ensures
            t@ == self.spec_get(r.spec_color_profile(), r.spec_dark_background()),
    {
        let dark = r.has_dark_background();
        match r.color_profile() {
            ColorProfileKind::TrueColor => if dark { self.true_dark.clone() } else { self.true_light.clone() },
            ColorProfileKind::ANSI256 => if dark { self.c256_dark.clone() } else { self.c256_light.clone() },
            ColorProfileKind::ANSI => if dark { self.ansi_dark.clone() } else { self.ansi_light.clone() },
            ColorProfileKind::NoColor => if dark { self.none_dark.clone() } else { self.none_light.clone() },
        }
    }
}

/// One setting of filler whitespace.
#[derive(Debug, Clone)]
pub enum WhitespaceOption {
    /// Foreground color.
    Foreground(ColorTokens),
    /// Background color.
    Background(ColorTokens),
    /// Underline.
    Underline,
    /// Strikethrough.
    Strikethrough,
    /// The characters to cycle through.
    Chars(String),
}

/// Filler whitespace: the renderer it was made for, the SGR prefix built by
/// its options, and the characters it cycles through.
#[derive(Debug, Clone)]
pub struct Whitespace {
    re: Renderer,
    style: String,
    chars: String,
}

/// `s` without its trailing `m` characters (`trim_end_matches('m')`).
pub open spec fn trim_end_m(s: Seq<char>) -> Seq<char>
    decreases s.len(),
{
    if s.len() > 0 && s.last() == 'm' {
        trim_end_m(s.drop_last())
    } else {
        s
    }
}

/// The style after adding one SGR parameter: `ESC [ seg m` when empty,
/// else the trailing `m`s are dropped and `; seg m` appended.
pub open spec fn push_segment(style: Seq<char>, seg: Seq<char>) -> Seq<char> {
    if style.len() == 0 {
        seq!['\u{1b}', '['] + seg + seq!['m']
    } else {
        trim_end_m(style) + seq![';'] + seg + seq!['m']
    }
}

/// A hex channel read from two characters, zero when unreadable.
pub open spec fn hex_or_zero(s: Seq<char>) -> u8 {
    match spec_hex_u8(s) {
        Some(v) => v,
        None => 0,
    }
}

/// The SGR parameter for a color token: `base;2;r;g;b` for `#rrggbb`
/// (zeros when too short), `base;5;token` otherwise (base 38 or 48).
pub open spec fn color_segment(base: Seq<char>, t: Seq<char>) -> Seq<char> {
    if t[0] == '#' {
        let hex = t.drop_first();
        let rgb = if hex.len() >= 6 {
            (hex_or_zero(hex.subrange(0, 2)), hex_or_zero(hex.subrange(2, 4)), hex_or_zero(hex.subrange(4, 6)))
        } else {
            (0u8, 0u8, 0u8)
        };
        base + seq![';', '2', ';'] + spec_decimal(rgb.0 as nat) + seq![';'] + spec_decimal(rgb.1 as nat)
            + seq![';'] + spec_decimal(rgb.2 as nat)
    } else {
        base + seq![';', '5', ';'] + t
    }
}

/// The style after applying one option for a profile and background.
pub open spec fn apply_option_style(
    style: Seq<char>,
    o: WhitespaceOption,
    p: ColorProfileKind,
    dark: bool,
) -> Seq<char> {
    match o {
        WhitespaceOption::Foreground(t) => if t.spec_get(p, dark).len() == 0 {
            style
        } else {
            push_segment(style, color_segment(seq!['3', '8'], t.spec_get(p, dark)))
        },
        WhitespaceOption::Background(t) => if t.spec_get(p, dark).len() == 0 {
            style
        } else {
            push_segment(style, color_segment(seq!['4', '8'], t.spec_get(p, dark)))
        },
        WhitespaceOption::Underline => push_segment(style, seq!['4']),
        WhitespaceOption::Strikethrough => push_segment(style, seq!['9']),
        WhitespaceOption::Chars(_) => style,
    }
}

/// The style that a list of options builds, in order.
pub open spec fn options_style(opts: Seq<WhitespaceOption>, p: ColorProfileKind, dark: bool) -> Seq<char>
    decreases opts.len(),
{
    if opts.len() == 0 {
        Seq::<char>::empty()
    } else {
        apply_option_style(options_style(opts.drop_last(), p, dark), opts.last(), p, dark)
    }
}

/// The characters that a list of options sets: those of the last `Chars`
/// option, or none.
pub open spec fn options_chars(opts: Seq<WhitespaceOption>) -> Seq<char>
    decreases opts.len(),
{
    if opts.len() == 0 {
        Seq::<char>::empty()
    } else {
        match opts.last() {
            WhitespaceOption::Chars(s) => s@,
            _ => options_chars(opts.drop_last()),
        }
    }
}

/// Foreground color for filler whitespace.
pub fn with_whitespace_foreground<C: TerminalColor>(c: C) -> (o: WhitespaceOption)
    ensures
        o matches WhitespaceOption::Foreground(t) && forall|p: ColorProfileKind, d: bool|
            #[trigger] t.spec_get(p, d) == c.spec_token(p, d),
{
    WhitespaceOption::Foreground(ColorTokens::of(&c))
}

/// Background color for filler whitespace.
pub fn with_whitespace_background<C: TerminalColor>(c: C) -> (o: WhitespaceOption)
    ensures
        o matches WhitespaceOption::Background(t) && forall|p: ColorProfileKind, d: bool|
            #[trigger] t.spec_get(p, d) == c.spec_token(p, d),
{
    WhitespaceOption::Background(ColorTokens::of(&c))
}

/// Underlined filler whitespace.
pub fn with_whitespace_underline() -> (o: WhitespaceOption)
    ensures
        o is Underline,
{
    WhitespaceOption::Underline
}

/// Struck-through filler whitespace.
pub fn with_whitespace_strikethrough() -> (o: WhitespaceOption)
    ensures
        o is Strikethrough,
{
    WhitespaceOption::Strikethrough
}

/// Filler whitespace made of the given characters, cycled.
pub fn with_whitespace_chars(s: &str) -> (o: WhitespaceOption)
    ensures
        o matches WhitespaceOption::Chars(c) && c@ == s@,
{
    WhitespaceOption::Chars(crate::strings::to_owned_string(s))
}

fn trim_end_m_exec(s: &[char]) -> (r: Vec<char>)
    ensures
        r@ == trim_end_m(s@),
{
    let mut n = s.len();
    assert(s@.take(n as int) =~= s@);
    while n > 0 && s[n - 1] == 'm'
        invariant
            n <= s.len(),
            trim_end_m(s@) == trim_end_m(s@.take(n as int)),
        decreases n,
    {
        assert(s@.take(n as int).drop_last() =~= s@.take(n - 1));
        n = n - 1;
    }
    let mut r: Vec<char> = Vec::new();
    let mut i: usize = 0;
    while i < n
        invariant
            i <= n <= s.len(),
            r@ == s@.take(i as int),
        decreases n - i,
    {
        r.push(s[i]);
        i = i + 1;
        assert(r@ =~= s@.take(i as int));
    }
    r
}

fn push_segment_exec(style: &String, seg: &[char]) -> (r: String)
    ensures
        r@ == push_segment(style@, seg@),
{
    let mut v: Vec<char>;
    if style.as_str().is_empty() {
        v = Vec::new();
        v.push('\u{1b}');
        v.push('[');
    } else {
        let cs = chars_of(style.as_str());
        v = trim_end_m_exec(cs.as_slice());
        v.push(';');
    }
    let mut out = string_from_chars(v.as_slice());
    push_chars(&mut out, seg);
    push_char(&mut out, 'm');
    assert(out@ =~= push_segment(style@, seg@));
    out
}

fn hex_or_zero_exec(s: &[char]) -> (r: u8)
    requires
        1 <= s.len() <= 2,
    ensures
        r == hex_or_zero(s@),
{
    match parse_hex_u8(s) {
        Some(v) => v,
        None => 0,
    }
}

fn color_segment_exec(base: &[char], t: &[char]) -> (r: Vec<char>)
    requires
        t.len() > 0,
    ensures
        r@ == color_segment(base@, t@),
{
    let mut v: Vec<char> = Vec::new();
    let mut i: usize = 0;
    while i < base.len()
        invariant
            i <= base.len(),
            v@ == base@.take(i as int),
        decreases base.len() - i,
    {
        v.push(base[i]);
        i = i + 1;
        assert(v@ =~= base@.take(i as int));
    }
    assert(base@.take(base.len() as int) =~= base@);
    if t[0] == '#' {
        let hex = &t[1..t.len()];
        assert(hex@ =~= t@.drop_first());
        let (r, g, b) = if hex.len() >= 6 {
            (hex_or_zero_exec(&hex[0..2]), hex_or_zero_exec(&hex[2..4]), hex_or_zero_exec(&hex[4..6]))
        } else {
            (0u8, 0u8, 0u8)
        };
        v.push(';');
        v.push('2');
        v.push(';');
        let ghost v0 = v@;
        let mut d = decimal_chars(r as u32);
        v.append(&mut d);
        v.push(';');
        let mut d = decimal_chars(g as u32);
        v.append(&mut d);
        v.push(';');
        let mut d = decimal_chars(b as u32);
        v.append(&mut d);
        assert(v@ =~= color_segment(base@, t@));
    } else {
        v.push(';');
        v.push('5');
        v.push(';');
        let mut k: usize = 0;
        let ghost v0 = v@;
        while k < t.len()
            invariant
                k <= t.len(),
                v@ == v0 + t@.take(k as int),
            decreases t.len() - k,
        {
            v.push(t[k]);
            k = k + 1;
            assert(v@ =~= v0 + t@.take(k as int));
        }
        assert(t@.take(t.len() as int) =~= t@);
        assert(v@ =~= color_segment(base@, t@));
    }
    v
}

impl Whitespace {
    /// The SGR prefix built by the options.
    pub closed spec fn spec_style(&self) -> Seq<char> {
        self.style@
    }

    /// The characters set by the options (empty means a space).
    pub closed spec fn spec_chars(&self) -> Seq<char> {
        self.chars@
    }

    /// The renderer the whitespace was made for.
    pub closed spec fn spec_renderer(&self) -> Renderer {
        self.re
    }
}

/// Filler whitespace for a renderer, built by applying the options in order.
pub fn new_whitespace(r: &Renderer, opts: &[WhitespaceOption]) -> (w: Whitespace)
    ensures
        w.spec_renderer() == *r,
        w.spec_style() == options_style(opts@, r.spec_color_profile(), r.spec_dark_background()),
        w.spec_chars() == options_chars(opts@),
{
    let mut w = Whitespace { re: *r, style: String::new(), chars: String::new() };
    let mut i: usize = 0;
    assert(opts@.take(0) =~= Seq::<WhitespaceOption>::empty());
    while i < opts.len()
        invariant
            i <= opts.len(),
            w.re == *r,
            w.style@ == options_style(opts@.take(i as int), r.spec_color_profile(), r.spec_dark_background()),
            w.chars@ == options_chars(opts@.take(i as int)),
        decreases opts.len() - i,
    {
        assert(opts@.take(i + 1).drop_last() =~= opts@.take(i as int));
        assert(opts@.take(i + 1).last() == opts@[i as int]);
        match &opts[i] {
            WhitespaceOption::Foreground(t) => {
                let tok = t.get(r);
                if !tok.as_str().is_empty() {
                    let tc = chars_of(tok.as_str());
                    let seg = color_segment_exec(&['3', '8'], tc.as_slice());
                    w.style = push_segment_exec(&w.style, seg.as_slice());
                }
            },
            WhitespaceOption::Background(t) => {
                let tok = t.get(r);
                if !tok.as_str().is_empty() {
                    let tc = chars_of(tok.as_str());
                    let seg = color_segment_exec(&['4', '8'], tc.as_slice());
                    w.style = push_segment_exec(&w.style, seg.as_slice());
                }
            },
            WhitespaceOption::Underline => {
                w.style = push_segment_exec(&w.style, &['4']);
            },
            WhitespaceOption::Strikethrough => {
                w.style = push_segment_exec(&w.style, &['9']);
            },
            WhitespaceOption::Chars(s) => {
                w.chars = s.clone();
            },
        }
        i = i + 1;
    }
    assert(opts@.take(opts.len() as int) =~= opts@);
    w
}

/// The characters cycled through: those set, or a single space.
pub open spec fn fill_runes(chars: Seq<char>) -> Seq<char> {
    if chars.len() == 0 { seq![' '] } else { chars }
}

/// The `k`-th character of the endless cycle of `runes`.
pub open spec fn rune_at(runes: Seq<char>, k: int) -> char {
    runes[k % (runes.len() as int)]
}

/// Cells taken by the `k`-th character of the cycle, measured as a string.
pub open spec fn rune_cells(runes: Seq<char>, k: int) -> nat {
    spec_display_width(seq![rune_at(runes, k)]) as nat
}

/// Cells taken by the first `m` characters of the cycle.
pub open spec fn cells_before(runes: Seq<char>, m: nat) -> nat
    decreases m,
{
    if m == 0 {
        0
    } else {
        cells_before(runes, (m - 1) as nat) + rune_cells(runes, m - 1)
    }
}

/// Filling stops before the `m`-th character: the width is reached, or
/// that character would overshoot it.
pub open spec fn fill_stops_at(runes: Seq<char>, width: nat, m: nat) -> bool {
    cells_before(runes, m) >= width || cells_before(runes, m) + rune_cells(runes, m as int) > width
}

/// `m` is the number of characters placed: the first place where filling stops.
pub open spec fn is_fill_count(runes: Seq<char>, width: nat, m: nat) -> bool {
    fill_stops_at(runes, width, m) && forall|k: nat| k < m ==> !#[trigger] fill_stops_at(runes, width, k)
}

/// The number of characters placed to fill `width` cells.
pub open spec fn fill_count(runes: Seq<char>, width: nat) -> nat {
    choose|m: nat| is_fill_count(runes, width, m)
}

/// The first `m` characters of the cycle.
pub open spec fn cycled(runes: Seq<char>, m: nat) -> Seq<char> {
    Seq::new(m, |k: int| rune_at(runes, k))
}

/// The characters can fill `width` cells: no cells are asked for, or some character
/// takes at least one cell (the default space does).
pub open spec fn can_fill(chars: Seq<char>, width: nat) -> bool {
    width == 0 || chars.len() == 0 || exists|p: int|
        0 <= p < chars.len() && #[trigger] spec_display_width(seq![chars[p]]) > 0
}

/// The cycled characters that fill `width` cells, then spaces for the cells
/// that wide characters left (at most `MAX_REPEAT_COUNT`); only spaces when
/// no character takes a cell.
pub open spec fn padded_fill(chars: Seq<char>, width: nat) -> Seq<char> {
    if can_fill(chars, width) {
        let runes = fill_runes(chars);
        let f = cycled(runes, fill_count(runes, width));
        let short: nat = if width > visible_width(f) { (width - visible_width(f)) as nat } else { 0 };
        f + capped_repeat(' ', short)
    } else {
        capped_repeat(' ', width)
    }
}

/// Rendered whitespace: the filled cells, wrapped in the style and a reset
/// (`ESC [0m`) when a style is set.
pub open spec fn rendered_whitespace(style: Seq<char>, chars: Seq<char>, width: nat) -> Seq<char> {
    if style.len() == 0 {
        padded_fill(chars, width)
    } else {
        style + padded_fill(chars, width) + seq!['\u{1b}', '[', '0', 'm']
    }
}

/// Index `start + t` wrapped once around a cycle of length `n`.
spec fn wrap_index(start: int, t: int, n: int) -> int {
    if start + t < n { start + t } else { start + t - n }
}

proof fn lemma_fill_count_unique(runes: Seq<char>, width: nat, m: nat)
    requires
        is_fill_count(runes, width, m),
    ensures
        fill_count(runes, width) == m,
{
    let c = fill_count(runes, width);
    assert(is_fill_count(runes, width, c));
    if c < m {
        assert(!fill_stops_at(runes, width, c));
    } else if m < c {
        assert(!fill_stops_at(runes, width, m));
    }
}

/// Filling never overshoots: the characters placed take at most the
/// width asked for, and the count placed is the one `fill_count` names.
pub proof fn law_fill_within_width(runes: Seq<char>, width: nat, m: nat)
    requires
        is_fill_count(runes, width, m),
    ensures
        cells_before(runes, m) <= width,
        fill_count(runes, width) == m,
{
    lemma_fill_count_unique(runes, width, m);
    if m > 0 {
        assert(!fill_stops_at(runes, width, (m - 1) as nat));
    }
}

impl Whitespace {
    /// Whether every width can be filled: no characters are set (a space is
    /// used), or one of them takes at least one cell.
    pub fn can_render(&self) -> (b: bool)
        ensures
            b == (self.spec_chars().len() == 0 || exists|p: int|
                0 <= p < self.spec_chars().len() && #[trigger] spec_display_width(seq![self.spec_chars()[p]]) > 0),
    {
        let cs = chars_of(self.chars.as_str());
        if cs.len() == 0 {
            return true;
        }
        let mut k: usize = 0;
        while k < cs.len()
            invariant
                k <= cs.len(),
                cs@ == self.chars@,
                forall|p: int| 0 <= p < k ==> #[trigger] spec_display_width(seq![self.chars@[p]]) == 0,
            decreases cs.len() - k,
        {
            let mut one = String::new();
            push_char(&mut one, cs[k]);
            assert(one@ =~= seq![cs@[k as int]]);
            if width(one.as_str()) > 0 {
                return true;
            }
            k = k + 1;
        }
        false
    }

    /// Whitespace `width` cells wide: the characters cycled (a space when none
    /// are set) as long as the next one fits, spaces for the cells left (all
    /// spaces when no character takes a cell), and the style around it with
    /// a reset at the end when one is set.
    pub fn render(&self, width: usize) -> (s: String)
        ensures
            s@ == rendered_whitespace(self.spec_style(), self.spec_chars(), width as nat),
    {
        if width == 0 || self.can_render() {
            return self.fill_render(width);
        }
        let pad = safe_repeat(' ', width);
        if !self.style.as_str().is_empty() {
            let mut out = self.style.clone();
            push_str(&mut out, pad.as_str());
            let mut reset: Vec<char> = Vec::new();
            reset.push('\u{1b}');
            reset.push('[');
            reset.push('0');
            reset.push('m');
            push_chars(&mut out, reset.as_slice());
            assert(out@ =~= rendered_whitespace(self.style@, self.chars@, width as nat));
            out
        } else {
            pad
        }
    }

    /// The cycled fill, for characters that can fill the width.
    fn fill_render(&self, width: usize) -> (s: String)
        requires
            can_fill(self.spec_chars(), width as nat),
        ensures
            s@ == rendered_whitespace(self.spec_style(), self.spec_chars(), width as nat),
    {
        let runes: Vec<char> = if self.chars.as_str().is_empty() {
            let mut v = Vec::new();
            v.push(' ');
            v
        } else {
            chars_of(self.chars.as_str())
        };
        let ghost rs = fill_runes(self.chars@);
        assert(runes@ =~= rs);
        let n = runes.len();
        let mut output = String::new();
        let mut i: usize = 0;
        let mut j: usize = 0;
        let ghost mut m: nat = 0;
        let ghost mut q: int = 0;
        let ghost mut start: int = 0;
        let ghost mut zr: int = 0;
        while i < width
            invariant
                n == rs.len(),
                n > 0,
                runes@ == rs,
                rs == fill_runes(self.chars@),
                can_fill(self.chars@, width as nat),
                0 <= j < n,
                m == q * n + j,
                q >= 0,
                i == cells_before(rs, m),
                i <= width,
                output@ == cycled(rs, m),
                forall|k: nat| k < m ==> !#[trigger] fill_stops_at(rs, width as nat, k),
                0 <= start < n,
                0 <= zr < n,
                start + zr == j || start + zr == j + n,
                forall|t: int| 0 <= t < zr ==> spec_display_width(
                    seq![rs[#[trigger] wrap_index(start, t, n as int)]],
                ) == 0,
            ensures
                fill_stops_at(rs, width as nat, m),
                output@ == cycled(rs, m),
                forall|k: nat| k < m ==> !#[trigger] fill_stops_at(rs, width as nat, k),
            decreases width - i, n - zr,
        {
            let ch = runes[j];
            let mut one = String::new();
            push_char(&mut one, ch);
            assert(one@ =~= seq![ch]);
            let w = crate::utils::width(one.as_str());
            proof {
                vstd::arithmetic::div_mod::lemma_fundamental_div_mod_converse_mod(m as int, n as int, q, j as int);
                assert(rune_at(rs, m as int) == ch);
                assert(rune_cells(rs, m as int) == w);
            }
            if w > width - i {
                break;
            }
            proof {
                assert(!fill_stops_at(rs, width as nat, m));
                assert forall|k: nat| k < m + 1 implies !#[trigger] fill_stops_at(rs, width as nat, k) by {
                    if k < m {
                    }
                }
                if w == 0 {
                    if zr + 1 >= n {
                        // every character of the cycle takes no cell
                        if self.chars@.len() == 0 {
                            assert(one@ =~= seq![' ']);
                            assert(crate::utils::is_printable_ascii(one@));
                        } else {
                            assert(rs == self.chars@);
                            let p = choose|p: int|
                                0 <= p < self.chars@.len() && #[trigger] spec_display_width(seq![self.chars@[p]]) > 0;
                            let t = if p >= start { p - start } else { p + n - start };
                            if t < zr {
                                assert(spec_display_width(seq![rs[wrap_index(start, t, n as int)]]) == 0);
                            } else {
                                assert(t == zr);
                                assert(wrap_index(start, t, n as int) == j);
                            }
                            assert(wrap_index(start, t, n as int) == p);
                        }
                    }
                }
            }
            push_char(&mut output, ch);
            i = i + w;
            proof {
                assert(output@ =~= cycled(rs, m + 1));
                if w == 0 {
                    zr = zr + 1;
                } else {
                    zr = 0;
                }
            }
            if j + 1 < n {
                j = j + 1;
            } else {
                j = 0;
                proof {
                    assert((q + 1) * n == q * n + n) by (nonlinear_arith);
                    q = q + 1;
                }
            }
            proof {
                m = m + 1;
                if zr == 0 {
                    start = j as int;
                }
            }
        }
        proof {
            lemma_fill_count_unique(rs, width as nat, m);
        }
        let content_width = width_visible(output.as_str());
        let short: usize = if width > content_width { width - content_width } else { 0 };
        if short > 0 {
            let pad = safe_repeat(' ', short);
            push_str(&mut output, pad.as_str());
        }
        let ghost f = cycled(rs, m);
        assert(output@ =~= padded_fill(self.chars@, width as nat));
        if !self.style.as_str().is_empty() {
            let mut out = self.style.clone();
            push_str(&mut out, output.as_str());
            let mut reset: Vec<char> = Vec::new();
            reset.push('\u{1b}');
            reset.push('[');
            reset.push('0');
            reset.push('m');
            push_chars(&mut out, reset.as_slice());
            assert(out@ =~= rendered_whitespace(self.style@, self.chars@, width as nat));
            out
        } else {
            output
        }
    }

    /// Whitespace `width` cells wide, or `None` when its characters all take
    /// no cell and a nonzero width is asked for (`render` then gives spaces).
    pub fn try_render(&self, width: usize) -> (s: Option<String>)
        ensures
            match s {
                Some(t) => can_fill(self.spec_chars(), width as nat) && t@ == rendered_whitespace(
                    self.spec_style(),
                    self.spec_chars(),
                    width as nat,
                ),
                None => !can_fill(self.spec_chars(), width as nat),
            },
    {
        if width == 0 || self.can_render() {
            Some(self.render(width))
        } else {
            None
        }
    }
}

} // verus!
