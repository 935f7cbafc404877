//! Placing a block of text inside a larger area, filling the rest with
//! whitespace.

use vstd::prelude::*;
use crate::renderer::Renderer;
use crate::strings::{append_chars, chars_of, string_from_chars, to_owned_string};
use crate::text::{count_newlines, lemma_count_newlines_concat, lemma_join_count_newlines, lemma_split_lines_no_newline, join_lines, join_lines_exec, lemma_split_lines_len, lines_view, split_lines, split_lines_exec};
use crate::utils::{max_visible_width, max_width_of_lines, visible_width, width_visible_chars};
use crate::whitespace::{
    can_fill, cycled, fill_count, fill_runes, new_whitespace, options_chars, options_style,
    rendered_whitespace, rune_at, Whitespace, WhitespaceOption,
};

verus! {

/// A position along one axis, in thousandths: 0 is the top or left edge,
/// 1000 the bottom or right edge, 500 the center. Values above 1000 count
/// as 1000.
#[derive(Debug, Clone, Copy, PartialEq, Eq, Structural)]
pub struct Position(pub u32);

/// Thousandths of the whole, at most 1000.
pub open spec fn clamped_position(p: Position) -> nat {
    if p.0 <= 1000 { p.0 as nat } else { 1000 }
}

/// `n` times `v` thousandths, rounded to the nearest whole number, halves
/// rounded up.
pub open spec fn scaled_round(n: nat, v: nat) -> nat {
    (2 * n * v + 1000) / 2000
}

impl Position {
    /// The position in thousandths, clamped to `0..=1000`.
    pub fn value(self) -> (v: u32)
        ensures
            v == clamped_position(self),
    {
        if self.0 <= 1000 { self.0 } else { 1000 }
    }

    /// The top edge.
    pub fn top() -> (p: Position)
        ensures
            p.0 == 0,
    {
        Position(0)
    }

    /// The bottom edge.
    pub fn bottom() -> (p: Position)
        ensures
            p.0 == 1000,
    {
        Position(1000)
    }

    /// The center.
    pub fn center() -> (p: Position)
        ensures
            p.0 == 500,
    {
        Position(500)
    }

    /// The left edge.
    pub fn left() -> (p: Position)
        ensures
            p.0 == 0,
    {
        Position(0)
    }

    /// The right edge.
    pub fn right() -> (p: Position)
        ensures
            p.0 == 1000,
    {
        Position(1000)
    }
}

/// A rounded share of `n` never exceeds `n`.
pub proof fn lemma_scaled_round_bound(n: nat, v: nat)
    requires
        v <= 1000,
    ensures
        scaled_round(n, v) <= n,
{
    assert(2 * n * v + 1000 <= 2000 * n + 1000) by (nonlinear_arith)
        requires
            v <= 1000,
    ;
    assert((2 * n * v + 1000) / 2000 <= n) by (nonlinear_arith)
        requires
            2 * n * v + 1000 <= 2000 * n + 1000,
    ;
}


/// The share before the block grows with the position: a block never
/// moves back toward the start as the position moves toward the end, and
/// the edges give no share and the whole.
pub proof fn law_lead_grows_with_position(n: nat, v1: nat, v2: nat)
    requires
        v1 <= v2 <= 1000,
    ensures
        scaled_round(n, v1) <= scaled_round(n, v2),
        scaled_round(n, 0) == 0,
        scaled_round(n, 1000) == n,
{
    assert(2 * n * v1 + 1000 <= 2 * n * v2 + 1000) by (nonlinear_arith)
        requires
            v1 <= v2,
    ;
    vstd::arithmetic::div_mod::lemma_div_is_ordered((2 * n * v1 + 1000) as int, (2 * n * v2 + 1000) as int, 2000);
    assert(2 * n * 0 + 1000 == 1000) by (nonlinear_arith);
    assert(2 * n * 1000 + 1000 == 2000 * n + 1000) by (nonlinear_arith);
    assert((2000 * n + 1000) / 2000 == n) by (nonlinear_arith);
}

/// The share is `n` times `v` thousandths rounded to the nearest whole
/// number, halves up: it is within half a cell of the exact share, and
/// the center position gives half of `n`, rounded up.
pub proof fn law_scaled_round_nearest(n: nat, v: nat)
    ensures
        2000 * scaled_round(n, v) <= 2 * n * v + 1000,
        2 * n * v + 1000 < 2000 * scaled_round(n, v) + 2000,
        scaled_round(n, 500) == (n + 1) / 2,
{
    let x = 2 * n * v + 1000;
    vstd::arithmetic::div_mod::lemma_fundamental_div_mod(x as int, 2000);
    vstd::arithmetic::div_mod::lemma_mod_bound(x as int, 2000);
    assert(2 * n * 500 + 1000 == 1000 * (n + 1)) by (nonlinear_arith);
    assert((1000 * (n + 1)) / 2000 == (n + 1) / 2) by (nonlinear_arith);
}

/// `n` times `v` thousandths, rounded half up.
pub fn scale_round(n: usize, v: u32) -> (r: usize)
    requires
        v <= 1000,
    ensures
        r == scaled_round(n as nat, v as nat),
        r <= n,
{
    proof {
        lemma_scaled_round_bound(n as nat, v as nat);
    }
    let wide: u128 = (2 * (n as u128) * (v as u128) + 1000) / 2000;
    assert(wide == scaled_round(n as nat, v as nat));
    wide as usize
}

/// Filler whitespace can fill any width: no characters are set, or one of
/// them takes at least one cell.
pub open spec fn fill_ok(opts: Seq<WhitespaceOption>) -> bool {
    can_fill(options_chars(opts), 1)
}

/// Placing `s` in a `width` by `height` area fills with its own characters:
/// the whitespace can fill any row, or no row needs filling.
pub open spec fn place_can_fill(width: int, height: int, s: Seq<char>, opts: Seq<WhitespaceOption>) -> bool {
    fill_ok(opts) || (width <= max_visible_width(split_lines(s)) && (height <= count_newlines(s) + 1
        || max_visible_width(split_lines(s)) == 0))
}

/// Whitespace `w` cells wide for a renderer and options.
pub open spec fn ws_fill(r: Renderer, opts: Seq<WhitespaceOption>, w: nat) -> Seq<char> {
    rendered_whitespace(
        options_style(opts, r.spec_color_profile(), r.spec_dark_background()),
        options_chars(opts),
        w,
    )
}

/// One line placed in a row `gap` cells wider than the block (`cw` cells).
pub open spec fn place_line_h(
    r: Renderer,
    opts: Seq<WhitespaceOption>,
    l: Seq<char>,
    cw: nat,
    gap: nat,
    v: nat,
) -> Seq<char> {
    let short: nat = if cw >= visible_width(l) { (cw - visible_width(l)) as nat } else { 0 };
    let total = gap + short;
    if v == 0 {
        l + ws_fill(r, opts, total)
    } else if v == 1000 {
        ws_fill(r, opts, total) + l
    } else {
        let left = scaled_round(total, v);
        ws_fill(r, opts, left) + l + ws_fill(r, opts, (total - left) as nat)
    }
}

/// The block `s` placed horizontally in `width` cells: unchanged when it is
/// at least that wide, else every line padded with whitespace.
pub open spec fn placed_horizontal(
    r: Renderer,
    width: int,
    v: nat,
    s: Seq<char>,
    opts: Seq<WhitespaceOption>,
) -> Seq<char> {
    let lines = split_lines(s);
    let cw = max_visible_width(lines);
    if width <= cw {
        s
    } else {
        join_lines(lines.map_values(|l: Seq<char>| place_line_h(r, opts, l, cw, (width - cw) as nat, v)))
    }
}

/// `n` copies of a row, each followed by a newline.
pub open spec fn rows_then_newline(row: Seq<char>, n: nat) -> Seq<char>
    decreases n,
{
    if n == 0 {
        Seq::<char>::empty()
    } else {
        rows_then_newline(row, (n - 1) as nat) + row + seq!['\n']
    }
}

/// `n` copies of a row, each after a newline.
pub open spec fn newline_then_rows(row: Seq<char>, n: nat) -> Seq<char>
    decreases n,
{
    if n == 0 {
        Seq::<char>::empty()
    } else {
        newline_then_rows(row, (n - 1) as nat) + seq!['\n'] + row
    }
}

/// The block `s` placed vertically in `height` lines: unchanged when it has
/// at least that many lines, else whitespace rows as wide as the block are
/// added above and below.
pub open spec fn placed_vertical(
    r: Renderer,
    height: int,
    v: nat,
    s: Seq<char>,
    opts: Seq<WhitespaceOption>,
) -> Seq<char> {
    let ch = count_newlines(s) + 1;
    if height <= ch {
        s
    } else {
        let gap = (height - ch) as nat;
        let row = ws_fill(r, opts, max_visible_width(split_lines(s)));
        if v == 0 {
            s + newline_then_rows(row, gap)
        } else if v == 1000 {
            rows_then_newline(row, gap) + s
        } else {
            let top = scaled_round(gap, v);
            rows_then_newline(row, top) + s + newline_then_rows(row, (gap - top) as nat)
        }
    }
}

/// The characters of rendered whitespace, for a width the options can fill.
fn render_chars(ws: &Whitespace, width: usize) -> (v: Vec<char>)
    ensures
        v@ == rendered_whitespace(ws.spec_style(), ws.spec_chars(), width as nat),
{
    let s = ws.render(width);
    chars_of(s.as_str())
}


proof fn lemma_rows_newlines(row: Seq<char>, n: nat)
    requires
        count_newlines(row) == 0,
    ensures
        count_newlines(rows_then_newline(row, n)) == n,
        count_newlines(newline_then_rows(row, n)) == n,
    decreases n,
{
    if n > 0 {
        lemma_rows_newlines(row, (n - 1) as nat);
        let a = rows_then_newline(row, (n - 1) as nat);
        lemma_count_newlines_concat(a, row);
        lemma_count_newlines_concat(a + row, seq!['\n']);
        assert(count_newlines(seq!['\n']) == 1) by {
            assert(seq!['\n'].drop_last() =~= Seq::<char>::empty());
            assert(count_newlines(seq!['\n'].drop_last()) == 0);
            assert(seq!['\n'].last() == '\n');
        }
        let b = newline_then_rows(row, (n - 1) as nat);
        lemma_count_newlines_concat(b, seq!['\n']);
        lemma_count_newlines_concat(b + seq!['\n'], row);
    }
}

/// Placing a block vertically gives it exactly `height` lines when it has
/// fewer, and leaves it as it is otherwise, provided the whitespace row
/// holds no newline of its own.
pub proof fn law_placed_vertical_height(r: Renderer, height: int, v: nat, s: Seq<char>, opts: Seq<WhitespaceOption>)
    requires
        v <= 1000,
        count_newlines(ws_fill(r, opts, max_visible_width(split_lines(s)))) == 0,
    ensures
        count_newlines(placed_vertical(r, height, v, s, opts)) + 1 == if height > count_newlines(s) + 1 {
            height
        } else {
            (count_newlines(s) + 1) as int
        },
{
    let ch = count_newlines(s) + 1;
    if height > ch {
        let gap = (height - ch) as nat;
        let row = ws_fill(r, opts, max_visible_width(split_lines(s)));
        lemma_rows_newlines(row, gap);
        if v == 0 {
            lemma_count_newlines_concat(s, newline_then_rows(row, gap));
        } else if v == 1000 {
            lemma_count_newlines_concat(rows_then_newline(row, gap), s);
        } else {
            let top = scaled_round(gap, v);
            lemma_scaled_round_bound(gap, v);
            lemma_rows_newlines(row, top);
            lemma_rows_newlines(row, (gap - top) as nat);
            lemma_count_newlines_concat(rows_then_newline(row, top), s);
            lemma_count_newlines_concat(rows_then_newline(row, top) + s, newline_then_rows(row, (gap - top) as nat));
        }
    }
}


/// A block with fewer lines than the height is placed with whitespace rows
/// as wide as the block: exactly `scaled_round(gap, v)` of them above it
/// (none at the top, all at the bottom, half at the center, rounded up)
/// and the rest of the gap below it; a block with enough lines is left as
/// it is.
pub proof fn law_placed_vertical_rows(r: Renderer, height: int, v: nat, s: Seq<char>, opts: Seq<WhitespaceOption>)
    requires
        v <= 1000,
    ensures
        height > count_newlines(s) + 1 ==> ({
            let gap = (height - count_newlines(s) - 1) as nat;
            let row = ws_fill(r, opts, max_visible_width(split_lines(s)));
            placed_vertical(r, height, v, s, opts) == rows_then_newline(row, scaled_round(gap, v)) + s
                + newline_then_rows(row, (gap - scaled_round(gap, v)) as nat)
        }),
        height <= count_newlines(s) + 1 ==> placed_vertical(r, height, v, s, opts) == s,
{
    if height > count_newlines(s) + 1 {
        let gap = (height - count_newlines(s) - 1) as nat;
        let row = ws_fill(r, opts, max_visible_width(split_lines(s)));
        law_lead_grows_with_position(gap, 0, v);
        law_lead_grows_with_position(gap, v, 1000);
        lemma_scaled_round_bound(gap, v);
        let e = Seq::<char>::empty();
        assert(rows_then_newline(row, 0) == e);
        assert(newline_then_rows(row, 0) == e);
        if v == 0 {
            assert(e + s + newline_then_rows(row, gap) =~= s + newline_then_rows(row, gap));
        } else if v == 1000 {
            assert(rows_then_newline(row, gap) + s + e =~= rows_then_newline(row, gap) + s);
        }
    }
}

/// The cells of fill that a placed line needs: the row's gap plus what the
/// line is short of the block's widest line.
pub open spec fn line_fill(l: Seq<char>, cw: nat, gap: nat) -> nat {
    gap + if cw >= visible_width(l) { (cw - visible_width(l)) as nat } else { 0 }
}

/// The cells of fill placed before a line at position `v`.
pub open spec fn line_lead(l: Seq<char>, cw: nat, gap: nat, v: nat) -> nat {
    scaled_round(line_fill(l, cw, gap), v)
}

/// A placed line comes after `line_lead` cells of fill and before the
/// rest: no fill before it at the left edge, all of it at the right edge,
/// and the share before it never shrinks as the position moves right, so
/// the line never moves left.
pub proof fn law_place_line_lead(
    r: Renderer,
    opts: Seq<WhitespaceOption>,
    l: Seq<char>,
    cw: nat,
    gap: nat,
    v1: nat,
    v2: nat,
)
    requires
        v1 <= v2 <= 1000,
    ensures
        line_lead(l, cw, gap, v1) <= line_lead(l, cw, gap, v2),
        line_lead(l, cw, gap, 0) == 0,
        line_lead(l, cw, gap, 1000) == line_fill(l, cw, gap),
        place_line_h(r, opts, l, cw, gap, 0) == l + ws_fill(r, opts, line_fill(l, cw, gap)),
        place_line_h(r, opts, l, cw, gap, 1000) == ws_fill(r, opts, line_fill(l, cw, gap)) + l,
        0 < v1 < 1000 ==> place_line_h(r, opts, l, cw, gap, v1) == ws_fill(r, opts, line_lead(l, cw, gap, v1)) + l
            + ws_fill(r, opts, (line_fill(l, cw, gap) - line_lead(l, cw, gap, v1)) as nat),
{
    law_lead_grows_with_position(line_fill(l, cw, gap), v1, v2);
    law_lead_grows_with_position(line_fill(l, cw, gap), 0, 1000);
}

/// Whitespace made without options is spaces alone.
pub proof fn lemma_plain_fill_spaces(r: Renderer, w: nat)
    ensures
        forall|k: int| 0 <= k < ws_fill(r, Seq::<WhitespaceOption>::empty(), w).len()
            ==> #[trigger] ws_fill(r, Seq::<WhitespaceOption>::empty(), w)[k] == ' ',
{
    let e = Seq::<WhitespaceOption>::empty();
    let none = Seq::<char>::empty();
    assert(options_style(e, r.spec_color_profile(), r.spec_dark_background()) =~= none);
    assert(options_chars(e) =~= none);
    assert(can_fill(none, w));
    let runes = fill_runes(none);
    assert(runes =~= seq![' ']);
    let f = cycled(runes, fill_count(runes, w));
    assert forall|k: int| 0 <= k < f.len() implies #[trigger] f[k] == ' ' by {
        assert(rune_at(runes, k) == runes[k % 1]);
    }
    let fill = ws_fill(r, e, w);
    assert forall|k: int| 0 <= k < fill.len() implies #[trigger] fill[k] == ' ' by {
        if k < f.len() {
            assert(fill[k] == f[k]);
        }
    }
}

/// Placing a block horizontally without options keeps its lines: it has as
/// many newlines afterwards as before.
pub proof fn lemma_placed_horizontal_newlines(r: Renderer, width: int, v: nat, s: Seq<char>)
    ensures
        count_newlines(placed_horizontal(r, width, v, s, Seq::<WhitespaceOption>::empty()))
            == count_newlines(s),
{
    let e = Seq::<WhitespaceOption>::empty();
    let lines = split_lines(s);
    let cw = max_visible_width(lines);
    lemma_split_lines_len(s);
    if width > cw {
        let gap = (width - cw) as nat;
        let placed = lines.map_values(|l: Seq<char>| place_line_h(r, e, l, cw, gap, v));
        lemma_split_lines_no_newline(s);
        assert forall|i: int, j: int| 0 <= i < placed.len() && 0 <= j < placed[i].len()
            implies #[trigger] placed[i][j] != '\n' by {
            let l = lines[i];
            let short: nat = if cw >= visible_width(l) { (cw - visible_width(l)) as nat } else { 0 };
            let total = gap + short;
            let left = scaled_round(total, v);
            lemma_plain_fill_spaces(r, total);
            lemma_plain_fill_spaces(r, left);
            lemma_plain_fill_spaces(r, (total - left) as nat);
            assert(placed[i] == place_line_h(r, e, l, cw, gap, v));
            let a = ws_fill(r, e, total);
            let b = ws_fill(r, e, left);
            let c = ws_fill(r, e, (total - left) as nat);
            if v == 0 {
                if j < l.len() {
                    assert(placed[i][j] == l[j]);
                } else {
                    assert(placed[i][j] == a[j - l.len()]);
                }
            } else if v == 1000 {
                if j < a.len() {
                    assert(placed[i][j] == a[j]);
                } else {
                    assert(placed[i][j] == l[j - a.len()]);
                }
            } else {
                if j < b.len() {
                    assert(placed[i][j] == b[j]);
                } else if j < b.len() + l.len() {
                    assert(placed[i][j] == l[j - b.len()]);
                } else {
                    assert(placed[i][j] == c[j - b.len() - l.len()]);
                }
            }
        }
        lemma_join_count_newlines(placed);
    }
}

impl Renderer {
    /// Places `s` horizontally in `width_px` cells at `pos`, filling the rest
    /// of every line with whitespace made from the options; `s` is returned
    /// unchanged when it is already at least that wide.
    pub fn place_horizontal(&self, width_px: i32, pos: Position, s: &str, opts: &[WhitespaceOption]) -> (out: String)
        ensures
            out@ == placed_horizontal(*self, width_px as int, clamped_position(pos), s@, opts@),
    {
        let cs = chars_of(s);
        let lines = split_lines_exec(cs.as_slice());
        let cw = max_width_of_lines(&lines);
        let ghost ls = split_lines(s@);
        assert(lines_view(lines@) == ls);
        if (width_px as i128) <= (cw as i128) {
            return to_owned_string(s);
        }
        let gap: usize = (width_px as i128 - cw as i128) as usize;
        let ws = new_whitespace(self, opts);
        let v = pos.value();
        let mut out_lines: Vec<Vec<char>> = Vec::new();
        let mut i: usize = 0;
        while i < lines.len()
            invariant
                i <= lines.len(),
                lines_view(lines@) == ls,
                cw == max_visible_width(ls),
                gap + cw == width_px,
                ws.spec_style() == options_style(opts@, self.spec_color_profile(), self.spec_dark_background()),
                ws.spec_chars() == options_chars(opts@),
                v == clamped_position(pos),
                out_lines@.len() == i,
                forall|k: int| 0 <= k < i ==> #[trigger] out_lines@[k]@ == place_line_h(
                    *self,
                    opts@,
                    ls[k],
                    cw as nat,
                    gap as nat,
                    v as nat,
                ),
            decreases lines.len() - i,
        {
            let l = &lines[i];
            let lw = width_visible_chars(l.as_slice());
            proof {
                lemma_max_visible_width_ge(ls, i as int);
            }
            let short = cw - lw;
            let total = gap + short;
            let mut line: Vec<char> = Vec::new();
            if v == 0 {
                append_chars(&mut line, l.as_slice());
                let w = render_chars(&ws, total);
                append_chars(&mut line, w.as_slice());
            } else if v == 1000 {
                let w = render_chars(&ws, total);
                append_chars(&mut line, w.as_slice());
                append_chars(&mut line, l.as_slice());
            } else {
                let lead = scale_round(total, v);
                let left = render_chars(&ws, lead);
                let right = render_chars(&ws, total - lead);
                append_chars(&mut line, left.as_slice());
                append_chars(&mut line, l.as_slice());
                append_chars(&mut line, right.as_slice());
            }
            assert(line@ =~= place_line_h(*self, opts@, ls[i as int], cw as nat, gap as nat, v as nat));
            out_lines.push(line);
            i = i + 1;
        }
        assert(lines_view(out_lines@) =~= ls.map_values(
            |l: Seq<char>| place_line_h(*self, opts@, l, max_visible_width(ls), (width_px - max_visible_width(ls)) as nat, clamped_position(pos)),
        ));
        let joined = join_lines_exec(&out_lines);
        string_from_chars(joined.as_slice())
    }

    /// Places `s` vertically in `height_px` lines at `pos`, adding rows of
    /// whitespace as wide as the block; `s` is returned unchanged when it
    /// already has at least that many lines.
    pub fn place_vertical(&self, height_px: i32, pos: Position, s: &str, opts: &[WhitespaceOption]) -> (out: String)
        ensures
            out@ == placed_vertical(*self, height_px as int, clamped_position(pos), s@, opts@),
    {
        let cs = chars_of(s);
        let lines = split_lines_exec(cs.as_slice());
        proof {
            lemma_split_lines_len(s@);
        }
        let ch = lines.len();
        if (height_px as i128) <= (ch as i128) {
            return to_owned_string(s);
        }
        let gap: usize = (height_px as i128 - ch as i128) as usize;
        let ws = new_whitespace(self, opts);
        let cw = max_width_of_lines(&lines);
        let empty_line = ws.render(cw);
        let row = chars_of(empty_line.as_str());
        let v = pos.value();
        let ghost rw = row@;
        assert(rw == ws_fill(*self, opts@, max_visible_width(split_lines(s@))));
        let mut out: Vec<char> = Vec::new();
        if v == 0 {
            append_chars(&mut out, cs.as_slice());
            let ghost base = out@;
            let mut k: usize = 0;
            while k < gap
                invariant
                    k <= gap,
                    row@ == rw,
                    out@ == base + newline_then_rows(rw, k as nat),
                decreases gap - k,
            {
                out.push('\n');
                append_chars(&mut out, row.as_slice());
                k = k + 1;
                assert(out@ =~= base + newline_then_rows(rw, k as nat));
            }
        } else if v == 1000 {
            let mut k: usize = 0;
            while k < gap
                invariant
                    k <= gap,
                    row@ == rw,
                    out@ == rows_then_newline(rw, k as nat),
                decreases gap - k,
            {
                append_chars(&mut out, row.as_slice());
                out.push('\n');
                k = k + 1;
                assert(out@ =~= rows_then_newline(rw, k as nat));
            }
            append_chars(&mut out, cs.as_slice());
        } else {
            let top = scale_round(gap, v);
            let split = gap - top;
            let mut k: usize = 0;
            while k < top
                invariant
                    k <= top,
                    row@ == rw,
                    out@ == rows_then_newline(rw, k as nat),
                decreases top - k,
            {
                append_chars(&mut out, row.as_slice());
                out.push('\n');
                k = k + 1;
                assert(out@ =~= rows_then_newline(rw, k as nat));
            }
            append_chars(&mut out, cs.as_slice());
            let ghost base = out@;
            let mut k: usize = 0;
            assert(out@ =~= base + newline_then_rows(rw, 0));
            while k < split
                invariant
                    k <= split,
                    row@ == rw,
                    out@ == base + newline_then_rows(rw, k as nat),
                decreases split - k,
            {
                out.push('\n');
                append_chars(&mut out, row.as_slice());
                k = k + 1;
                assert(out@ =~= base + newline_then_rows(rw, k as nat));
            }
        }
        string_from_chars(out.as_slice())
    }

    /// Places `s` in a `width_px` by `height_px` area: horizontally first,
    /// then vertically.
    pub fn place(
        &self,
        width_px: i32,
        height_px: i32,
        h_pos: Position,
        v_pos: Position,
        s: &str,
        opts: &[WhitespaceOption],
    ) -> (out: String)
        ensures
            out@ == placed_vertical(
                *self,
                height_px as int,
                clamped_position(v_pos),
                placed_horizontal(*self, width_px as int, clamped_position(h_pos), s@, opts@),
                opts@,
            ),
    {
        let h = self.place_horizontal(width_px, h_pos, s, opts);
        self.place_vertical(height_px, v_pos, h.as_str(), opts)
    }

    /// Places `s` as `place` does, or `None` when the whitespace characters
    /// all take no cell and a row would need filling (`place` then fills
    /// with plain spaces).
    pub fn try_place(
        &self,
        width_px: i32,
        height_px: i32,
        h_pos: Position,
        v_pos: Position,
        s: &str,
        opts: &[WhitespaceOption],
    ) -> (out: Option<String>)
        ensures
            match out {
                Some(t) => place_can_fill(width_px as int, height_px as int, s@, opts@) && t@ == placed_vertical(
                    *self,
                    height_px as int,
                    clamped_position(v_pos),
                    placed_horizontal(*self, width_px as int, clamped_position(h_pos), s@, opts@),
                    opts@,
                ),
                None => !place_can_fill(width_px as int, height_px as int, s@, opts@),
            },
    {
        let ws = new_whitespace(self, opts);
        let cs = chars_of(s);
        let lines = split_lines_exec(cs.as_slice());
        proof {
            lemma_split_lines_len(s@);
        }
        let cw = max_width_of_lines(&lines);
        let fits = (width_px as i128) <= (cw as i128) && ((height_px as i128) <= (lines.len() as i128) || cw == 0);
        if fits || ws.can_render() {
            Some(self.place(width_px, height_px, h_pos, v_pos, s, opts))
        } else {
            None
        }
    }
}

/// No line is wider than the widest.
pub proof fn lemma_max_visible_width_ge(lines: Seq<Seq<char>>, i: int)
    requires
        0 <= i < lines.len(),
    ensures
        visible_width(lines[i]) <= max_visible_width(lines),
    decreases lines.len(),
{
    if i < lines.len() - 1 {
        lemma_max_visible_width_ge(lines.drop_last(), i);
        assert(lines.drop_last()[i] == lines[i]);
    }
}

} // verus!
