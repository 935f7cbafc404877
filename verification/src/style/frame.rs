//! The frame stages of rendering: aligning the block in its width and
//! height, drawing the border, coloring the lines, and the margins.

use vstd::prelude::*;
use crate::border::Border;
use crate::color::resolve_color_token_for_profile;
use crate::color::spec_resolve_token;
use crate::join::spread_line;
use crate::position::{
    clamped_position, law_lead_grows_with_position, lemma_scaled_round_bound, scale_round, scaled_round,
};
use crate::renderer::ColorProfileKind;
use crate::security::{capped_repeat, repeat_seq, safe_repeat, safe_str_repeat, safe_str_repeat_count};
use crate::strings::{append_chars, chars_of};
use crate::style::data::{Style, TextTransform};
use crate::style::keys::{
    ALIGN_HORIZONTAL_KEY, ALIGN_VERTICAL_KEY, ATTR_BORDER_BOTTOM, ATTR_BORDER_LEFT,
    ATTR_BORDER_RIGHT, ATTR_BORDER_TOP, ATTR_COLOR_WHITESPACE, BACKGROUND_KEY, BORDER_BOTTOM_KEY,
    BORDER_LEFT_KEY, BORDER_RIGHT_KEY, BORDER_STYLE_KEY, BORDER_TOP_KEY, MARGIN_BACKGROUND_KEY,
    MARGIN_BOTTOM_KEY, MARGIN_LEFT_KEY, MARGIN_RIGHT_KEY, MARGIN_TOP_KEY,
};
use crate::style::sgr::{bg_param, bg_param_exec, edge_sgr, edge_sgr_exec, push_opt, sgr_seq, sgr_seq_exec};
use crate::style::stages::pad_of;
use crate::text::{join_lines, join_lines_exec, lines_view, split_lines, split_lines_exec};
use crate::utils::{max_visible_width, max_width_of_lines, visible_width, width_visible_chars};

verus! {

/// `ESC [0m`.
pub open spec fn reset_seq() -> Seq<char> {
    seq!['\u{1b}', '[', '0', 'm']
}

fn reset_chars() -> (v: Vec<char>)
    ensures
        v@ == reset_seq(),
{
    let mut v: Vec<char> = Vec::new();
    v.push('\u{1b}');
    v.push('[');
    v.push('0');
    v.push('m');
    assert(v@ =~= reset_seq());
    v
}

// ---------------------------------------------------------------------
// Alignment in the width and height
// ---------------------------------------------------------------------

/// A line padded with spaces to `tw` cells, the left share given by the
/// horizontal position `h` (thousandths, rounded).
pub open spec fn align_line(l: Seq<char>, tw: nat, h: nat) -> Seq<char> {
    let vw = visible_width(l);
    if tw > vw {
        let gap = (tw - vw) as nat;
        let left = scaled_round(gap, h);
        capped_repeat(' ', left) + l + capped_repeat(' ', (gap - left) as nat)
    } else {
        l
    }
}

/// Every line aligned in the width, when one is set.
pub open spec fn width_aligned(ls: Seq<Seq<char>>, tw: int, h: nat) -> Seq<Seq<char>> {
    if tw > 0 { ls.map_values(|l: Seq<char>| align_line(l, tw as nat, h)) } else { ls }
}

/// Lines of spaces as wide as the block added above and below to reach
/// `th` lines, the upper share given by the vertical position `v`; a taller
/// block keeps only its first `th` lines.
pub open spec fn height_aligned(ls: Seq<Seq<char>>, th: int, v: nat) -> Seq<Seq<char>> {
    if th > 0 && ls.len() > th {
        ls.take(th)
    } else if th > 0 && ls.len() < th {
        let gap = (th - ls.len()) as nat;
        let top = scaled_round(gap, v);
        let e = capped_repeat(' ', max_visible_width(ls));
        Seq::new(top, |_i: int| e) + ls + Seq::new((gap - top) as nat, |_i: int| e)
    } else {
        ls
    }
}

/// Aligning a line in the width places it as lines are placed when
/// blocks are joined one above the other: `scaled_round(gap, h)` spaces
/// before it (none at the left, all at the right, half at the center,
/// rounded up) and the rest of the gap after it; a line at least as wide
/// is left as it is.
pub proof fn law_align_line_spread(l: Seq<char>, tw: nat, h: nat)
    ensures
        align_line(l, tw, h) == spread_line(l, tw, h),
{
    if tw <= visible_width(l) {
        assert(scaled_round(0, h) == 0) by {
            assert(2 * 0 * h + 1000 == 1000) by (nonlinear_arith);
        }
        assert(capped_repeat(' ', 0) + l + capped_repeat(' ', 0) =~= l);
    }
}

/// A block shorter than the height gets blank rows (spaces as wide as its
/// widest line) above and below: exactly `scaled_round(gap, v)` of them
/// above it (none at the top, all at the bottom, half at the center,
/// rounded up), its own lines next in order, and the rest of the gap below,
/// for `height` rows in all.
pub proof fn law_height_aligned_rows(ls: Seq<Seq<char>>, th: int, v: nat)
    requires
        v <= 1000,
        th > ls.len(),
    ensures
        height_aligned(ls, th, v).len() == th,
        forall|k: int| 0 <= k < scaled_round((th - ls.len()) as nat, v)
            ==> #[trigger] height_aligned(ls, th, v)[k] == capped_repeat(' ', max_visible_width(ls)),
        forall|k: int| 0 <= k < ls.len()
            ==> height_aligned(ls, th, v)[scaled_round((th - ls.len()) as nat, v) + k] == #[trigger] ls[k],
        forall|k: int| scaled_round((th - ls.len()) as nat, v) + ls.len() <= k < th
            ==> #[trigger] height_aligned(ls, th, v)[k] == capped_repeat(' ', max_visible_width(ls)),
{
    let gap = (th - ls.len()) as nat;
    lemma_scaled_round_bound(gap, v);
    let top = scaled_round(gap, v);
    let e = capped_repeat(' ', max_visible_width(ls));
    let r = height_aligned(ls, th, v);
    assert(r =~= Seq::new(top, |_i: int| e) + ls + Seq::new((gap - top) as nat, |_i: int| e));
    assert forall|k: int| 0 <= k < ls.len() implies r[top + k] == #[trigger] ls[k] by {
        assert(r[top + k] == (Seq::new(top, |_i: int| e) + ls)[top + k]);
    }
}

/// Aligns every line in the width.
pub fn width_align_exec(lines: &Vec<Vec<char>>, tw: i32, h: u32) -> (r: Vec<Vec<char>>)
    requires
        h <= 1000,
    ensures
        lines_view(r@) == width_aligned(lines_view(lines@), tw as int, h as nat),
{
    let ghost ls = lines_view(lines@);
    let mut out: Vec<Vec<char>> = Vec::new();
    let mut i: usize = 0;
    while i < lines.len()
        invariant
            i <= lines.len(),
            ls == lines_view(lines@),
            h <= 1000,
            out@.len() == i,
            forall|k: int| 0 <= k < i ==> #[trigger] out@[k]@ == (if tw > 0 {
                align_line(ls[k], tw as nat, h as nat)
            } else {
                ls[k]
            }),
        decreases lines.len() - i,
    {
        let l = &lines[i];
        let mut nl: Vec<char> = Vec::new();
        if tw > 0 {
            let vw = width_visible_chars(l.as_slice());
            let twu = tw as usize;
            if twu > vw {
                let gap = twu - vw;
                let left = scale_round(gap, h);
                let lp = chars_of(safe_repeat(' ', left).as_str());
                let rp = chars_of(safe_repeat(' ', gap - left).as_str());
                append_chars(&mut nl, lp.as_slice());
                append_chars(&mut nl, l.as_slice());
                append_chars(&mut nl, rp.as_slice());
            } else {
                append_chars(&mut nl, l.as_slice());
            }
        } else {
            append_chars(&mut nl, l.as_slice());
        }
        assert(nl@ =~= (if tw > 0 { align_line(ls[i as int], tw as nat, h as nat) } else { ls[i as int] }));
        out.push(nl);
        i = i + 1;
    }
    assert(lines_view(out@) =~= width_aligned(ls, tw as int, h as nat));
    out
}

/// Adds lines of spaces above and below to reach the height, or keeps
/// only the first lines of a taller block.
pub fn height_align_exec(lines: Vec<Vec<char>>, th: i32, v: u32) -> (r: Vec<Vec<char>>)
    requires
        v <= 1000,
    ensures
        lines_view(r@) == height_aligned(lines_view(lines@), th as int, v as nat),
{
    if th > 0 && (lines.len() as i128) > (th as i128) {
        let ghost ls = lines_view(lines@);
        let n = th as usize;
        let mut out: Vec<Vec<char>> = Vec::new();
        let mut i: usize = 0;
        while i < n
            invariant
                i <= n,
                n == th,
                n < lines.len(),
                ls == lines_view(lines@),
                lines_view(out@) == ls.take(i as int),
            decreases n - i,
        {
            let mut l: Vec<char> = Vec::new();
            append_chars(&mut l, lines[i].as_slice());
            let ghost b = lines_view(out@);
            let ghost lv = l@;
            out.push(l);
            assert(lines_view(out@) =~= b.push(lv));
            assert(ls.take(i + 1) =~= ls.take(i as int).push(lv));
            i = i + 1;
        }
        return out;
    }
    if !(th > 0 && (lines.len() as i128) < (th as i128)) {
        return lines;
    }
    let ghost ls = lines_view(lines@);
    let gap = (th as usize) - lines.len();
    let top = scale_round(gap, v);
    let bw = max_width_of_lines(&lines);
    let e = chars_of(safe_repeat(' ', bw).as_str());
    let mut out: Vec<Vec<char>> = Vec::new();
    let mut k: usize = 0;
    while k < top
        invariant
            k <= top,
            e@ == capped_repeat(' ', max_visible_width(ls)),
            lines_view(out@) == Seq::new(k as nat, |_i: int| e@),
        decreases top - k,
    {
        let mut l: Vec<char> = Vec::new();
        append_chars(&mut l, e.as_slice());
        let ghost b = lines_view(out@);
        let ghost lv = l@;
        out.push(l);
        assert(lines_view(out@) =~= b.push(lv));
        assert(lines_view(out@) =~= Seq::new((k + 1) as nat, |_i: int| e@));
        k = k + 1;
    }
    let ghost head = lines_view(out@);
    let mut i: usize = 0;
    while i < lines.len()
        invariant
            i <= lines.len(),
            ls == lines_view(lines@),
            lines_view(out@) == head + ls.take(i as int),
        decreases lines.len() - i,
    {
        let mut l: Vec<char> = Vec::new();
        append_chars(&mut l, lines[i].as_slice());
        let ghost b = lines_view(out@);
        let ghost lv = l@;
        out.push(l);
        assert(lines_view(out@) =~= b.push(lv));
        assert(ls.take(i + 1) =~= ls.take(i as int).push(lv));
        i = i + 1;
    }
    assert(ls.take(lines.len() as int) =~= ls);
    let ghost mid = lines_view(out@);
    let bottom = gap - top;
    let mut k: usize = 0;
    while k < bottom
        invariant
            k <= bottom,
            e@ == capped_repeat(' ', max_visible_width(ls)),
            lines_view(out@) == mid + Seq::new(k as nat, |_i: int| e@),
        decreases bottom - k,
    {
        let mut l: Vec<char> = Vec::new();
        append_chars(&mut l, e.as_slice());
        let ghost b = lines_view(out@);
        let ghost lv = l@;
        out.push(l);
        assert(lines_view(out@) =~= b.push(lv));
        assert(lines_view(out@) =~= mid + Seq::new((k + 1) as nat, |_i: int| e@));
        k = k + 1;
    }
    assert(lines_view(out@) =~= height_aligned(ls, th as int, v as nat));
    out
}

// ---------------------------------------------------------------------
// Borders
// ---------------------------------------------------------------------

/// The border is drawn: some side is on and a border style is set.
pub open spec fn draws_border<T>(st: Style<T>) -> bool {
    (st.side(BORDER_TOP_KEY, ATTR_BORDER_TOP) || st.side(BORDER_RIGHT_KEY, ATTR_BORDER_RIGHT)
        || st.side(BORDER_BOTTOM_KEY, ATTR_BORDER_BOTTOM) || st.side(BORDER_LEFT_KEY, ATTR_BORDER_LEFT))
        && st.has(BORDER_STYLE_KEY)
}

/// The characters of an optional string.
pub open spec fn opt_view(o: Option<String>) -> Option<Seq<char>> {
    match o {
        Some(x) => Some(x@),
        None => None,
    }
}

/// The first string that is there.
pub open spec fn or_view(a: Option<String>, b: Option<String>) -> Option<Seq<char>> {
    match a {
        Some(x) => Some(x@),
        None => opt_view(b),
    }
}

/// The style's foreground, used for edges unless some edge has its own.
pub open spec fn fg_comb<T>(st: Style<T>) -> Option<String> {
    if st.border_top_fg_color is Some || st.border_right_fg_color is Some || st.border_bottom_fg_color is Some
        || st.border_left_fg_color is Some {
        None
    } else {
        st.fg_color
    }
}

/// The style's background, used for edges unless some edge has its own.
pub open spec fn bg_comb<T>(st: Style<T>) -> Option<String> {
    if st.border_top_bg_color is Some || st.border_right_bg_color is Some || st.border_bottom_bg_color is Some
        || st.border_left_bg_color is Some {
        None
    } else {
        st.bg_color
    }
}

/// An edge string wrapped in its escape sequence and a reset, when it has one.
pub open spec fn colored(sgr: Seq<char>, s: Seq<char>) -> Seq<char> {
    if sgr.len() == 0 { s } else { sgr + s + reset_seq() }
}

/// A horizontal edge `w` cells wide: its corners where the side borders
/// are drawn (else the edge string), the edge string repeated between.
pub open spec fn hedge(sgr: Seq<char>, on: bool, left: bool, right: bool, fill: &str, cl: &str, cr: &str, w: nat) -> Seq<char> {
    if on {
        colored(
            sgr,
            (if left { cl@ } else { fill@ }) + repeat_seq(fill@, safe_str_repeat_count(fill.len() as nat, w))
                + (if right { cr@ } else { fill@ }),
        )
    } else {
        Seq::<char>::empty()
    }
}

/// A side edge, when drawn.
pub open spec fn vedge(sgr: Seq<char>, on: bool, s: &str) -> Seq<char> {
    if on { colored(sgr, s@) } else { Seq::<char>::empty() }
}

/// A content line between the side edges, padded to `w` cells.
pub open spec fn mid_line(l: Seq<char>, lp: Seq<char>, rp: Seq<char>, w: nat) -> Seq<char> {
    let pad: nat = if w > visible_width(l) { (w - visible_width(l)) as nat } else { 0 };
    lp + l + capped_repeat(' ', pad) + rp
}

/// The escape sequence of each edge (top, right, bottom, left).
pub open spec fn edge_sgrs<T>(st: Style<T>, p: ColorProfileKind) -> (Seq<char>, Seq<char>, Seq<char>, Seq<char>) {
    (
        edge_sgr(or_view(st.border_top_fg_color, fg_comb(st)), or_view(st.border_top_bg_color, bg_comb(st)), p),
        edge_sgr(or_view(st.border_right_fg_color, fg_comb(st)), or_view(st.border_right_bg_color, bg_comb(st)), p),
        edge_sgr(or_view(st.border_bottom_fg_color, fg_comb(st)), or_view(st.border_bottom_bg_color, bg_comb(st)), p),
        edge_sgr(or_view(st.border_left_fg_color, fg_comb(st)), or_view(st.border_left_bg_color, bg_comb(st)), p),
    )
}

/// The block with its border: the top edge, the content lines between the
/// side edges, the bottom edge, each present edge on a line of its own.
pub open spec fn bordered<T>(st: Style<T>, p: ColorProfileKind, ls: Seq<Seq<char>>) -> Seq<char> {
    let b = st.border_style;
    let w = max_visible_width(ls);
    let e = edge_sgrs(st, p);
    let t = st.side(BORDER_TOP_KEY, ATTR_BORDER_TOP);
    let r = st.side(BORDER_RIGHT_KEY, ATTR_BORDER_RIGHT);
    let bo = st.side(BORDER_BOTTOM_KEY, ATTR_BORDER_BOTTOM);
    let l = st.side(BORDER_LEFT_KEY, ATTR_BORDER_LEFT);
    let top = hedge(e.0, t, l, r, b.top, b.top_left, b.top_right, w);
    let bot = hedge(e.2, bo, l, r, b.bottom, b.bottom_left, b.bottom_right, w);
    let lp = vedge(e.3, l, b.left);
    let rp = vedge(e.1, r, b.right);
    let mid = join_lines(ls.map_values(|x: Seq<char>| mid_line(x, lp, rp, w)));
    if top.len() > 0 && bot.len() > 0 {
        top + seq!['\n'] + mid + seq!['\n'] + bot
    } else if top.len() > 0 {
        top + seq!['\n'] + mid
    } else if bot.len() > 0 {
        mid + seq!['\n'] + bot
    } else {
        mid
    }
}

/// The lines with the border, when one is drawn.
pub open spec fn with_border<T>(st: Style<T>, p: ColorProfileKind, ls: Seq<Seq<char>>) -> Seq<Seq<char>> {
    if draws_border(st) { split_lines(bordered(st, p, ls)) } else { ls }
}

fn colored_exec(sgr: &Vec<char>, s: &[char]) -> (r: Vec<char>)
    ensures
        r@ == colored(sgr@, s@),
{
    let mut r: Vec<char> = Vec::new();
    if sgr.len() == 0 {
        append_chars(&mut r, s);
        assert(r@ =~= s@);
    } else {
        append_chars(&mut r, sgr.as_slice());
        append_chars(&mut r, s);
        let rs = reset_chars();
        append_chars(&mut r, rs.as_slice());
        assert(r@ =~= colored(sgr@, s@));
    }
    r
}

fn hedge_exec(sgr: &Vec<char>, on: bool, left: bool, right: bool, fill: &str, cl: &str, cr: &str, w: usize) -> (r: Vec<char>)
    ensures
        r@ == hedge(sgr@, on, left, right, fill, cl, cr, w as nat),
{
    if !on {
        return Vec::new();
    }
    let mut c: Vec<char> = Vec::new();
    if left {
        append_chars(&mut c, chars_of(cl).as_slice());
    } else {
        append_chars(&mut c, chars_of(fill).as_slice());
    }
    let rep = safe_str_repeat(fill, w);
    append_chars(&mut c, chars_of(rep.as_str()).as_slice());
    if right {
        append_chars(&mut c, chars_of(cr).as_slice());
    } else {
        append_chars(&mut c, chars_of(fill).as_slice());
    }
    colored_exec(sgr, c.as_slice())
}

fn vedge_exec(sgr: &Vec<char>, on: bool, s: &str) -> (r: Vec<char>)
    ensures
        r@ == vedge(sgr@, on, s),
{
    if on {
        let cs = chars_of(s);
        colored_exec(sgr, cs.as_slice())
    } else {
        Vec::new()
    }
}

/// The optional string as a reference.
fn opt_ref(o: &Option<String>) -> (r: Option<&String>)
    ensures
        opt_view(*o) == (match r {
            Some(t) => Some(t@),
            None => None,
        }),
{
    match o {
        Some(t) => Some(t),
        None => None,
    }
}

/// The first of the two strings that is there.
fn or_ref<'a>(a: &'a Option<String>, b: Option<&'a String>) -> (r: Option<&'a String>)
    ensures
        (match r {
            Some(t) => Some(t@),
            None => None,
        }) == (match a {
            Some(x) => Some(x@),
            None => match b {
                Some(t) => Some(t@),
                None => None,
            },
        }),
{
    match a {
        Some(t) => Some(t),
        None => b,
    }
}

/// The escape sequences of the four edges.
fn edge_sgrs_exec<T: TextTransform>(st: &Style<T>, p: ColorProfileKind) -> (r: (Vec<char>, Vec<char>, Vec<char>, Vec<char>))
    ensures
        (r.0@, r.1@, r.2@, r.3@) == edge_sgrs(*st, p),
{
    let combined_fg = st.border_top_fg_color.is_some() || st.border_right_fg_color.is_some()
        || st.border_bottom_fg_color.is_some() || st.border_left_fg_color.is_some();
    let combined_bg = st.border_top_bg_color.is_some() || st.border_right_bg_color.is_some()
        || st.border_bottom_bg_color.is_some() || st.border_left_bg_color.is_some();
    let fgc: Option<&String> = if combined_fg { None } else { opt_ref(&st.fg_color) };
    let bgc: Option<&String> = if combined_bg { None } else { opt_ref(&st.bg_color) };
    assert(opt_view(fg_comb(*st)) == (match fgc { Some(t) => Some(t@), None => None }));
    assert(opt_view(bg_comb(*st)) == (match bgc { Some(t) => Some(t@), None => None }));
    let top_sgr = edge_sgr_exec(or_ref(&st.border_top_fg_color, fgc), or_ref(&st.border_top_bg_color, bgc), p);
    let right_sgr = edge_sgr_exec(or_ref(&st.border_right_fg_color, fgc), or_ref(&st.border_right_bg_color, bgc), p);
    let bottom_sgr = edge_sgr_exec(or_ref(&st.border_bottom_fg_color, fgc), or_ref(&st.border_bottom_bg_color, bgc), p);
    let left_sgr = edge_sgr_exec(or_ref(&st.border_left_fg_color, fgc), or_ref(&st.border_left_bg_color, bgc), p);
    (top_sgr, right_sgr, bottom_sgr, left_sgr)
}

/// The content lines between the side edges.
fn mid_lines_exec(lines: &Vec<Vec<char>>, lp: &Vec<char>, rp: &Vec<char>, w: usize) -> (r: Vec<Vec<char>>)
    ensures
        lines_view(r@) == lines_view(lines@).map_values(|x: Seq<char>| mid_line(x, lp@, rp@, w as nat)),
{
    let ghost ls = lines_view(lines@);
    let mut mids: Vec<Vec<char>> = Vec::new();
    let mut i: usize = 0;
    while i < lines.len()
        invariant
            i <= lines.len(),
            ls == lines_view(lines@),
            mids@.len() == i,
            forall|k: int| 0 <= k < i ==> #[trigger] mids@[k]@ == mid_line(ls[k], lp@, rp@, w as nat),
        decreases lines.len() - i,
    {
        let lw = width_visible_chars(lines[i].as_slice());
        let pad = if w > lw { w - lw } else { 0 };
        let mut m: Vec<char> = Vec::new();
        append_chars(&mut m, lp.as_slice());
        append_chars(&mut m, lines[i].as_slice());
        append_chars(&mut m, chars_of(safe_repeat(' ', pad).as_str()).as_slice());
        append_chars(&mut m, rp.as_slice());
        assert(m@ =~= mid_line(ls[i as int], lp@, rp@, w as nat));
        mids.push(m);
        i = i + 1;
    }
    assert(lines_view(mids@) =~= ls.map_values(|x: Seq<char>| mid_line(x, lp@, rp@, w as nat)));
    mids
}

/// Joins the present edges and the content with newlines.
fn stack_edges(top: &Vec<char>, mid: &Vec<char>, bot: &Vec<char>) -> (r: Vec<char>)
    ensures
        r@ == (if top@.len() > 0 && bot@.len() > 0 {
            top@ + seq!['\n'] + mid@ + seq!['\n'] + bot@
        } else if top@.len() > 0 {
            top@ + seq!['\n'] + mid@
        } else if bot@.len() > 0 {
            mid@ + seq!['\n'] + bot@
        } else {
            mid@
        }),
{
    let mut all: Vec<char> = Vec::new();
    if top.len() > 0 && bot.len() > 0 {
        append_chars(&mut all, top.as_slice());
        all.push('\n');
        append_chars(&mut all, mid.as_slice());
        all.push('\n');
        append_chars(&mut all, bot.as_slice());
    } else if top.len() > 0 {
        append_chars(&mut all, top.as_slice());
        all.push('\n');
        append_chars(&mut all, mid.as_slice());
    } else if bot.len() > 0 {
        append_chars(&mut all, mid.as_slice());
        all.push('\n');
        append_chars(&mut all, bot.as_slice());
    } else {
        append_chars(&mut all, mid.as_slice());
    }
    all
}

/// The block with its border drawn, as lines.
pub fn border_exec<T: TextTransform>(st: &Style<T>, p: ColorProfileKind, lines: &Vec<Vec<char>>) -> (r: Vec<Vec<char>>)
    ensures
        lines_view(r@) == split_lines(bordered(*st, p, lines_view(lines@))),
{
    let ghost ls = lines_view(lines@);
    let b: Border = st.border_style;
    let w = max_width_of_lines(lines);
    let (top_sgr, right_sgr, bottom_sgr, left_sgr) = edge_sgrs_exec(st, p);
    let t = st.get_border_top();
    let r = st.get_border_right();
    let bo = st.get_border_bottom();
    let l = st.get_border_left();
    let top = hedge_exec(&top_sgr, t, l, r, b.top, b.top_left, b.top_right, w);
    let bot = hedge_exec(&bottom_sgr, bo, l, r, b.bottom, b.bottom_left, b.bottom_right, w);
    let lp = vedge_exec(&left_sgr, l, b.left);
    let rp = vedge_exec(&right_sgr, r, b.right);
    let mids = mid_lines_exec(lines, &lp, &rp, w);
    let mid = join_lines_exec(&mids);
    let all = stack_edges(&top, &mid, &bot);
    assert(all@ == bordered(*st, p, ls));
    split_lines_exec(all.as_slice())
}

// ---------------------------------------------------------------------
// Coloring the lines
// ---------------------------------------------------------------------

/// Number of leading spaces.
pub open spec fn lead_spaces(l: Seq<char>) -> nat
    decreases l.len(),
{
    if l.len() > 0 && l[0] == ' ' { 1 + lead_spaces(l.drop_first()) } else { 0 }
}

/// Number of trailing spaces.
pub open spec fn trail_spaces(l: Seq<char>) -> nat
    decreases l.len(),
{
    if l.len() > 0 && l.last() == ' ' { 1 + trail_spaces(l.drop_last()) } else { 0 }
}

/// A line colored by the prefix: all of it when the background is colored,
/// else only the part between its leading and trailing spaces (a line of
/// spaces stays as it is).
pub open spec fn sgr_line(l: Seq<char>, pre: Seq<char>, bg: bool) -> Seq<char> {
    if bg {
        pre + l + reset_seq()
    } else {
        let a = lead_spaces(l);
        let z = trail_spaces(l);
        if a + z >= l.len() {
            l
        } else {
            l.take(a as int) + pre + l.subrange(a as int, l.len() - z) + reset_seq() + l.skip(l.len() - z)
        }
    }
}

/// The whole line is colored: a background is set or whitespace is colored.
pub open spec fn has_bg<T>(st: Style<T>) -> bool {
    st.has(BACKGROUND_KEY) || st.attr(ATTR_COLOR_WHITESPACE)
}

proof fn lemma_lead_step(l: Seq<char>, a: int)
    requires
        0 <= a <= l.len(),
        forall|k: int| 0 <= k < a ==> l[k] == ' ',
    ensures
        lead_spaces(l) == a + lead_spaces(l.skip(a)),
    decreases a,
{
    if a > 0 {
        lemma_lead_step(l.drop_first(), a - 1);
        assert(l.drop_first().skip(a - 1) =~= l.skip(a));
    } else {
        assert(l.skip(0) =~= l);
    }
}

proof fn lemma_trail_step(l: Seq<char>, z: int)
    requires
        0 <= z <= l.len(),
        forall|k: int| l.len() - z <= k < l.len() ==> l[k] == ' ',
    ensures
        trail_spaces(l) == z + trail_spaces(l.take(l.len() - z)),
    decreases z,
{
    if z > 0 {
        lemma_trail_step(l.drop_last(), z - 1);
        assert(l.drop_last().take(l.drop_last().len() - (z - 1)) =~= l.take(l.len() - z));
    } else {
        assert(l.take(l.len() as int) =~= l);
    }
}

fn lead_spaces_exec(l: &[char]) -> (n: usize)
    ensures
        n == lead_spaces(l@),
        n <= l@.len(),
{
    let mut a: usize = 0;
    while a < l.len() && l[a] == ' '
        invariant
            a <= l.len(),
            forall|k: int| 0 <= k < a ==> l@[k] == ' ',
        decreases l.len() - a,
    {
        a = a + 1;
    }
    proof {
        lemma_lead_step(l@, a as int);
    }
    a
}

fn trail_spaces_exec(l: &[char]) -> (n: usize)
    ensures
        n == trail_spaces(l@),
        n <= l@.len(),
{
    let mut z: usize = 0;
    while z < l.len() && l[l.len() - 1 - z] == ' '
        invariant
            z <= l.len(),
            forall|k: int| l.len() - z <= k < l.len() ==> l@[k] == ' ',
        decreases l.len() - z,
    {
        z = z + 1;
    }
    proof {
        lemma_trail_step(l@, z as int);
    }
    z
}

/// Colors every line.
pub fn sgr_lines_exec(lines: &Vec<Vec<char>>, pre: &Vec<char>, bg: bool) -> (r: Vec<Vec<char>>)
    ensures
        lines_view(r@) == lines_view(lines@).map_values(|l: Seq<char>| sgr_line(l, pre@, bg)),
{
    let ghost ls = lines_view(lines@);
    let rs = reset_chars();
    let mut out: Vec<Vec<char>> = Vec::new();
    let mut i: usize = 0;
    while i < lines.len()
        invariant
            i <= lines.len(),
            ls == lines_view(lines@),
            rs@ == reset_seq(),
            out@.len() == i,
            forall|k: int| 0 <= k < i ==> #[trigger] out@[k]@ == sgr_line(ls[k], pre@, bg),
        decreases lines.len() - i,
    {
        let l = lines[i].as_slice();
        let mut m: Vec<char> = Vec::new();
        if bg {
            append_chars(&mut m, pre.as_slice());
            append_chars(&mut m, l);
            append_chars(&mut m, rs.as_slice());
        } else {
            let a = lead_spaces_exec(l);
            let z = trail_spaces_exec(l);
            if a >= l.len() - z {
                append_chars(&mut m, l);
            } else {
                let n = l.len();
                append_chars(&mut m, &l[0..a]);
                append_chars(&mut m, pre.as_slice());
                append_chars(&mut m, &l[a..n - z]);
                append_chars(&mut m, rs.as_slice());
                append_chars(&mut m, &l[n - z..n]);
                assert(l@.subrange(0, a as int) =~= l@.take(a as int));
                assert(l@.subrange(n - z, n as int) =~= l@.skip(n - z));
            }
        }
        assert(m@ =~= sgr_line(ls[i as int], pre@, bg));
        out.push(m);
        i = i + 1;
    }
    assert(lines_view(out@) =~= ls.map_values(|l: Seq<char>| sgr_line(l, pre@, bg)));
    out
}

// ---------------------------------------------------------------------
// Margins
// ---------------------------------------------------------------------

/// The margin color token under the default renderer's profile: the
/// margin background when set, else the background when set.
pub open spec fn margin_token<T>(st: Style<T>, dp: ColorProfileKind) -> Option<Seq<char>> {
    let src = if st.has(MARGIN_BACKGROUND_KEY) {
        opt_view(st.margin_bg_color)
    } else if st.has(BACKGROUND_KEY) {
        opt_view(st.bg_color)
    } else {
        None
    };
    match src {
        Some(c) => Some(spec_resolve_token(c, dp)),
        None => None,
    }
}

/// `n` spaces rendered by a style that sets only the margin color as its
/// background.
pub open spec fn margin_fill(tok: Option<Seq<char>>, dp: ColorProfileKind, n: nat) -> Seq<char> {
    let sg = match tok {
        Some(t) => if dp != ColorProfileKind::NoColor { push_opt(Seq::<Seq<char>>::empty(), bg_param(t, dp)) } else {
            Seq::<Seq<char>>::empty()
        },
        None => Seq::<Seq<char>>::empty(),
    };
    let sp = capped_repeat(' ', n);
    if sg.len() == 0 { sp } else { sgr_seq(sg) + sp + reset_seq() }
}

/// Margin filling for a width, or nothing when the width is 0.
pub open spec fn margin_row(tok: Option<Seq<char>>, dp: ColorProfileKind, n: nat) -> Seq<char> {
    if n > 0 { margin_fill(tok, dp, n) } else { Seq::<char>::empty() }
}

/// The block with its margins: filled space left and right of every line,
/// then rows as wide as the block above and below.
pub open spec fn with_margins<T>(st: Style<T>, dp: ColorProfileKind, block: Seq<char>) -> Seq<char> {
    let tm = pad_of(st, MARGIN_TOP_KEY, st.margin_top);
    let rm = pad_of(st, MARGIN_RIGHT_KEY, st.margin_right);
    let bm = pad_of(st, MARGIN_BOTTOM_KEY, st.margin_bottom);
    let lm = pad_of(st, MARGIN_LEFT_KEY, st.margin_left);
    if tm == 0 && rm == 0 && bm == 0 && lm == 0 {
        block
    } else {
        let tok = margin_token(st, dp);
        let ls = split_lines(block).map_values(
            |l: Seq<char>| margin_row(tok, dp, lm) + l + margin_row(tok, dp, rm),
        );
        let top = if tm > 0 {
            Seq::new(tm, |_i: int| margin_row(tok, dp, max_visible_width(ls)))
        } else {
            Seq::<Seq<char>>::empty()
        };
        let r1 = top + ls;
        let bot = if bm > 0 {
            Seq::new(bm, |_i: int| margin_row(tok, dp, max_visible_width(r1)))
        } else {
            Seq::<Seq<char>>::empty()
        };
        join_lines(r1 + bot)
    }
}

fn margin_fill_exec(tok: &Option<Vec<char>>, dp: ColorProfileKind, n: usize) -> (r: Vec<char>)
    ensures
        r@ == margin_fill(
            match tok {
                Some(t) => Some(t@),
                None => None,
            },
            dp,
            n as nat,
        ),
{
    let mut ps: Vec<Vec<char>> = Vec::new();
    assert(ps@.map_values(|v: Vec<char>| v@) =~= Seq::<Seq<char>>::empty());
    match tok {
        Some(t) => {
            if dp != ColorProfileKind::NoColor {
                let ts = crate::strings::string_from_chars(t.as_slice());
                match bg_param_exec(ts.as_str(), dp) {
                    Some(x) => {
                        let ghost before = ps@.map_values(|v: Vec<char>| v@);
                        let ghost xv = x@;
                        ps.push(x);
                        assert(ps@.map_values(|v: Vec<char>| v@) =~= before.push(xv));
                    },
                    None => {},
                }
            }
        },
        None => {},
    }
    let sp = chars_of(safe_repeat(' ', n).as_str());
    let mut r: Vec<char> = Vec::new();
    if ps.len() == 0 {
        append_chars(&mut r, sp.as_slice());
        assert(r@ =~= sp@);
    } else {
        let pre = sgr_seq_exec(&ps);
        append_chars(&mut r, pre.as_slice());
        append_chars(&mut r, sp.as_slice());
        let rs = reset_chars();
        append_chars(&mut r, rs.as_slice());
    }
    r
}

fn margin_row_exec(tok: &Option<Vec<char>>, dp: ColorProfileKind, n: usize) -> (r: Vec<char>)
    ensures
        r@ == margin_row(
            match tok {
                Some(t) => Some(t@),
                None => None,
            },
            dp,
            n as nat,
        ),
{
    if n > 0 { margin_fill_exec(tok, dp, n) } else { Vec::new() }
}

/// The margin color token, computed.
fn margin_token_exec<T: TextTransform>(st: &Style<T>, dp: ColorProfileKind) -> (r: Option<Vec<char>>)
    ensures
        margin_token(*st, dp) == (match r {
            Some(t) => Some(t@),
            None => None,
        }),
{
    let src: Option<&String> = if st.is_set(MARGIN_BACKGROUND_KEY) {
        opt_ref(&st.margin_bg_color)
    } else if st.is_set(BACKGROUND_KEY) {
        opt_ref(&st.bg_color)
    } else {
        None
    };
    match src {
        Some(c) => Some(chars_of(resolve_color_token_for_profile(c.as_str(), dp).as_str())),
        None => None,
    }
}

/// Every line between its left and right margins.
fn side_margins_exec(block: &[char], tok: &Option<Vec<char>>, dp: ColorProfileKind, lm: usize, rm: usize) -> (r: Vec<Vec<char>>)
    ensures
        lines_view(r@) == split_lines(block@).map_values(
            |l: Seq<char>| margin_row(
                match tok {
                    Some(t) => Some(t@),
                    None => None,
                },
                dp,
                lm as nat,
            ) + l + margin_row(
                match tok {
                    Some(t) => Some(t@),
                    None => None,
                },
                dp,
                rm as nat,
            ),
        ),
{
    let ghost tv = match tok {
        Some(t) => Some(t@),
        None => None,
    };
    let lines = split_lines_exec(block);
    let ghost bl = split_lines(block@);
    let lp = margin_row_exec(tok, dp, lm);
    let rp = margin_row_exec(tok, dp, rm);
    let mut mid: Vec<Vec<char>> = Vec::new();
    let mut i: usize = 0;
    while i < lines.len()
        invariant
            i <= lines.len(),
            lines_view(lines@) == bl,
            lp@ == margin_row(tv, dp, lm as nat),
            rp@ == margin_row(tv, dp, rm as nat),
            mid@.len() == i,
            forall|k: int| 0 <= k < i ==> #[trigger] mid@[k]@ == margin_row(tv, dp, lm as nat) + bl[k] + margin_row(
                tv,
                dp,
                rm as nat,
            ),
        decreases lines.len() - i,
    {
        let mut m: Vec<char> = Vec::new();
        append_chars(&mut m, lp.as_slice());
        append_chars(&mut m, lines[i].as_slice());
        append_chars(&mut m, rp.as_slice());
        mid.push(m);
        i = i + 1;
    }
    assert(lines_view(mid@) =~= bl.map_values(|l: Seq<char>| margin_row(tv, dp, lm as nat) + l + margin_row(tv, dp, rm as nat)));
    mid
}

/// Appends `n` copies of a row.
fn push_rows(out: &mut Vec<Vec<char>>, e: &Vec<char>, n: usize)
    ensures
        lines_view(final(out)@) == lines_view(old(out)@) + Seq::new(n as nat, |_i: int| e@),
{
    let ghost start = lines_view(out@);
    let mut k: usize = 0;
    while k < n
        invariant
            k <= n,
            lines_view(out@) == start + Seq::new(k as nat, |_i: int| e@),
        decreases n - k,
    {
        let mut l: Vec<char> = Vec::new();
        append_chars(&mut l, e.as_slice());
        let ghost b = lines_view(out@);
        let ghost lv = l@;
        out.push(l);
        assert(lines_view(out@) =~= b.push(lv));
        assert(lines_view(out@) =~= start + Seq::new((k + 1) as nat, |_i: int| e@));
        k = k + 1;
    }
}

/// Appends copies of the lines.
fn push_all(out: &mut Vec<Vec<char>>, src: &Vec<Vec<char>>)
    ensures
        lines_view(final(out)@) == lines_view(old(out)@) + lines_view(src@),
{
    let ghost start = lines_view(out@);
    let mut i: usize = 0;
    while i < src.len()
        invariant
            i <= src.len(),
            lines_view(out@) == start + lines_view(src@).take(i as int),
        decreases src.len() - i,
    {
        let mut l: Vec<char> = Vec::new();
        append_chars(&mut l, src[i].as_slice());
        let ghost b = lines_view(out@);
        let ghost lv = l@;
        out.push(l);
        assert(lines_view(out@) =~= b.push(lv));
        assert(lines_view(src@).take(i + 1) =~= lines_view(src@).take(i as int).push(lv));
        i = i + 1;
    }
    assert(lines_view(src@).take(src.len() as int) =~= lines_view(src@));
}

/// The block with the style's margins.
pub fn margins_exec<T: TextTransform>(st: &Style<T>, dp: ColorProfileKind, block: &[char]) -> (r: Vec<char>)
    ensures
        r@ == with_margins(*st, dp, block@),
{
    let tm: usize = if st.is_set(MARGIN_TOP_KEY) && st.margin_top > 0 { st.margin_top as usize } else { 0 };
    let rm: usize = if st.is_set(MARGIN_RIGHT_KEY) && st.margin_right > 0 { st.margin_right as usize } else { 0 };
    let bm: usize = if st.is_set(MARGIN_BOTTOM_KEY) && st.margin_bottom > 0 { st.margin_bottom as usize } else { 0 };
    let lm: usize = if st.is_set(MARGIN_LEFT_KEY) && st.margin_left > 0 { st.margin_left as usize } else { 0 };
    if tm == 0 && rm == 0 && bm == 0 && lm == 0 {
        let mut r: Vec<char> = Vec::new();
        append_chars(&mut r, block);
        assert(r@ =~= block@);
        return r;
    }
    let tok = margin_token_exec(st, dp);
    let ghost tv = margin_token(*st, dp);
    let mid = side_margins_exec(block, &tok, dp, lm, rm);
    let ghost ls = lines_view(mid@);
    assert(tm as nat == pad_of(*st, MARGIN_TOP_KEY, st.margin_top));
    assert(rm as nat == pad_of(*st, MARGIN_RIGHT_KEY, st.margin_right));
    assert(bm as nat == pad_of(*st, MARGIN_BOTTOM_KEY, st.margin_bottom));
    assert(lm as nat == pad_of(*st, MARGIN_LEFT_KEY, st.margin_left));
    assert(ls =~= split_lines(block@).map_values(
        |l: Seq<char>| margin_row(tv, dp, lm as nat) + l + margin_row(tv, dp, rm as nat),
    ));
    let mut out: Vec<Vec<char>> = Vec::new();
    if tm > 0 {
        let bw = max_width_of_lines(&mid);
        let e = margin_row_exec(&tok, dp, bw);
        push_rows(&mut out, &e, tm);
    }
    push_all(&mut out, &mid);
    let ghost r1 = lines_view(out@);
    if bm > 0 {
        let bw = max_width_of_lines(&out);
        let e = margin_row_exec(&tok, dp, bw);
        push_rows(&mut out, &e, bm);
    }
    assert(lines_view(out@) =~= (if tm > 0 {
        Seq::new(tm as nat, |_i: int| margin_row(tv, dp, max_visible_width(ls)))
    } else {
        Seq::<Seq<char>>::empty()
    }) + ls + (if bm > 0 {
        Seq::new(bm as nat, |_i: int| margin_row(tv, dp, max_visible_width(r1)))
    } else {
        Seq::<Seq<char>>::empty()
    }));
    join_lines_exec(&out)
}

} // verus!
