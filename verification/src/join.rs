//! Joining blocks of text side by side or one above the other, padding them
//! to a common height or width.

use vstd::prelude::*;
use crate::position::{
    clamped_position, law_lead_grows_with_position, lemma_scaled_round_bound, scale_round, scaled_round,
    Position,
};
use crate::security::{capped_repeat, safe_repeat};
use crate::strings::{append_chars, chars_of, string_from_chars, to_owned_string};
use crate::text::{
    concat, lemma_concat_push, join_lines, join_lines_exec, lemma_join_count_newlines, lemma_split_lines_len,
    lemma_split_lines_no_newline, lines_view, split_lines, split_lines_exec,
};
use crate::utils::{max_visible_width, max_width_of_lines, visible_width, width_visible_chars};

verus! {

/// The characters of each string.
pub open spec fn strs_view(strs: Seq<&str>) -> Seq<Seq<char>> {
    strs.map_values(|s: &str| s@)
}

/// `n` empty lines.
pub open spec fn blank_lines(n: nat) -> Seq<Seq<char>> {
    Seq::new(n, |_i: int| Seq::<char>::empty())
}

/// The largest number of lines among the blocks.
pub open spec fn max_line_count(blocks: Seq<Seq<char>>) -> nat
    decreases blocks.len(),
{
    if blocks.len() == 0 {
        0
    } else {
        let m = max_line_count(blocks.drop_last());
        let c = split_lines(blocks.last()).len();
        if c > m { c } else { m }
    }
}

/// A block's lines padded with empty lines to `h` lines: below it at the top
/// position (0), above it at the bottom (1000), else split by the position.
pub open spec fn pad_block(b: Seq<Seq<char>>, h: nat, v: nat) -> Seq<Seq<char>> {
    if b.len() >= h {
        b
    } else {
        let need = (h - b.len()) as nat;
        if v == 0 {
            b + blank_lines(need)
        } else if v == 1000 {
            blank_lines(need) + b
        } else {
            let split = scaled_round(need, v);
            blank_lines(split) + b + blank_lines((need - split) as nat)
        }
    }
}

/// Line `i` of a padded block, followed by spaces up to the block's width.
pub open spec fn block_cell(pb: Seq<Seq<char>>, w: nat, i: int) -> Seq<char> {
    let line = if 0 <= i < pb.len() { pb[i] } else { Seq::<char>::empty() };
    let pad: nat = if w >= visible_width(line) { (w - visible_width(line)) as nat } else { 0 };
    line + capped_repeat(' ', pad)
}

/// Row `i` of the first `j` blocks placed side by side, each padded to `h`
/// lines.
pub open spec fn row_upto(blocks: Seq<Seq<char>>, h: nat, v: nat, i: int, j: nat) -> Seq<char>
    decreases j,
{
    if j == 0 {
        Seq::<char>::empty()
    } else {
        let b = split_lines(blocks[j - 1]);
        row_upto(blocks, h, v, i, (j - 1) as nat) + block_cell(pad_block(b, h, v), max_visible_width(b), i)
    }
}

/// Blocks joined side by side: each padded to the tallest height (placed
/// by the position) and every line padded to its block's width.
pub open spec fn joined_horizontal(v: nat, blocks: Seq<Seq<char>>) -> Seq<char> {
    if blocks.len() == 0 {
        Seq::<char>::empty()
    } else if blocks.len() == 1 {
        blocks[0]
    } else {
        let h = max_line_count(blocks);
        join_lines(Seq::new(h, |i: int| row_upto(blocks, h, v, i, blocks.len())))
    }
}


/// Whether `s` holds no newline.
pub open spec fn no_newline(s: Seq<char>) -> bool {
    forall|k: int| 0 <= k < s.len() ==> #[trigger] s[k] != '\n'
}

proof fn lemma_pad_block_no_newline(b: Seq<Seq<char>>, h: nat, v: nat)
    requires
        forall|i: int| 0 <= i < b.len() ==> no_newline(#[trigger] b[i]),
    ensures
        forall|i: int| 0 <= i < pad_block(b, h, v).len() ==> no_newline(#[trigger] pad_block(b, h, v)[i]),
{
    let pb = pad_block(b, h, v);
    assert forall|i: int| 0 <= i < pb.len() implies no_newline(#[trigger] pb[i]) by {
        if b.len() < h {
            let need = (h - b.len()) as nat;
            if v == 0 {
                if i >= b.len() {
                    assert(pb[i] == Seq::<char>::empty());
                } else {
                    assert(pb[i] == b[i]);
                }
            } else if v == 1000 {
                if i < need {
                    assert(pb[i] == Seq::<char>::empty());
                } else {
                    assert(pb[i] == b[i - need]);
                }
            } else {
                let split = scaled_round(need, v);
                if i < split {
                    assert(pb[i] == Seq::<char>::empty());
                } else if i < split + b.len() {
                    assert(pb[i] == b[i - split]);
                } else {
                    assert(pb[i] == Seq::<char>::empty());
                }
            }
        }
    }
}

proof fn lemma_row_no_newline(blocks: Seq<Seq<char>>, h: nat, v: nat, i: int, j: nat)
    requires
        j <= blocks.len(),
    ensures
        no_newline(row_upto(blocks, h, v, i, j)),
    decreases j,
{
    if j > 0 {
        lemma_row_no_newline(blocks, h, v, i, (j - 1) as nat);
        let b = split_lines(blocks[j - 1]);
        lemma_split_lines_no_newline(blocks[j - 1]);
        assert forall|k: int| 0 <= k < b.len() implies no_newline(#[trigger] b[k]) by {
            assert forall|q: int| 0 <= q < b[k].len() implies #[trigger] b[k][q] != '\n' by {
                assert(split_lines(blocks[j - 1])[k][q] != '\n');
            }
        }
        lemma_pad_block_no_newline(b, h, v);
        let pb = pad_block(b, h, v);
        let c = block_cell(pb, max_visible_width(b), i);
        let line = if 0 <= i < pb.len() { pb[i] } else { Seq::<char>::empty() };
        let pad: nat = if max_visible_width(b) >= visible_width(line) { (max_visible_width(b) - visible_width(line)) as nat } else { 0 };
        assert(no_newline(line));
        assert(no_newline(capped_repeat(' ', pad)));
        assert(no_newline(c));
        let r = row_upto(blocks, h, v, i, (j - 1) as nat);
        assert forall|k: int| 0 <= k < (r + c).len() implies #[trigger] (r + c)[k] != '\n' by {
            if k < r.len() {
                assert((r + c)[k] == r[k]);
            } else {
                assert((r + c)[k] == c[k - r.len()]);
            }
        }
    }
}

/// Blocks joined side by side take as many lines as the tallest block
/// (nothing for no blocks, the block itself for one).
pub proof fn law_join_horizontal_height(v: nat, blocks: Seq<Seq<char>>)
    requires
        blocks.len() >= 2,
    ensures
        split_lines(joined_horizontal(v, blocks)).len() == max_line_count(blocks),
{
    let h = max_line_count(blocks);
    let rows = Seq::new(h, |i: int| row_upto(blocks, h, v, i, blocks.len()));
    assert(h >= 1) by {
        lemma_split_lines_len(blocks.last());
    }
    assert forall|i: int, q: int| 0 <= i < rows.len() && 0 <= q < rows[i].len() implies #[trigger] rows[i][q] != '\n' by {
        lemma_row_no_newline(blocks, h, v, i, blocks.len());
    }
    lemma_join_count_newlines(rows);
    lemma_split_lines_len(joined_horizontal(v, blocks));
}

/// The lines of all the blocks, in order.
pub open spec fn all_lines(blocks: Seq<Seq<char>>) -> Seq<Seq<char>>
    decreases blocks.len(),
{
    if blocks.len() == 0 {
        Seq::<Seq<char>>::empty()
    } else {
        all_lines(blocks.drop_last()) + split_lines(blocks.last())
    }
}

/// A line padded with spaces to `w` cells: after it at the left position
/// (0), before it at the right (1000), else split by the position.
pub open spec fn pad_line(l: Seq<char>, w: nat, v: nat) -> Seq<char> {
    let gap: nat = if w >= visible_width(l) { (w - visible_width(l)) as nat } else { 0 };
    if v == 0 {
        l + capped_repeat(' ', gap)
    } else if v == 1000 {
        capped_repeat(' ', gap) + l
    } else if gap < 1 {
        l
    } else {
        let split = scaled_round(gap, v);
        let right = (gap - split) as nat;
        capped_repeat(' ', (gap - right) as nat) + l + capped_repeat(' ', right)
    }
}

/// Blocks joined one above the other, every line padded to the widest line.
pub open spec fn joined_vertical(v: nat, blocks: Seq<Seq<char>>) -> Seq<char> {
    if blocks.len() == 0 {
        Seq::<char>::empty()
    } else if blocks.len() == 1 {
        blocks[0]
    } else {
        let ls = all_lines(blocks);
        let w = max_visible_width(ls);
        join_lines(ls.map_values(|l: Seq<char>| pad_line(l, w, v)))
    }
}

/// Appends copies of the lines in `src` to `dst`.
fn push_lines(dst: &mut Vec<Vec<char>>, src: &Vec<Vec<char>>)
    ensures
        lines_view(final(dst)@) == lines_view(old(dst)@) + lines_view(src@),
{
    let ghost start = lines_view(dst@);
    let mut k: usize = 0;
    while k < src.len()
        invariant
            k <= src.len(),
            lines_view(dst@) == start + lines_view(src@).take(k as int),
        decreases src.len() - k,
    {
        let mut line: Vec<char> = Vec::new();
        append_chars(&mut line, src[k].as_slice());
        assert(line@ =~= src@[k as int]@);
        let ghost before = dst@;
        let ghost lv = line@;
        dst.push(line);
        assert(lines_view(dst@) =~= lines_view(before).push(lv));
        assert(lines_view(src@).take(k + 1) =~= lines_view(src@).take(k as int).push(lv));
        k = k + 1;
        assert(lines_view(dst@) =~= start + lines_view(src@).take(k as int));
    }
    assert(lines_view(src@).take(src.len() as int) =~= lines_view(src@));
}

/// Appends `n` empty lines to `dst`.
fn push_blank_lines(dst: &mut Vec<Vec<char>>, n: usize)
    ensures
        lines_view(final(dst)@) == lines_view(old(dst)@) + blank_lines(n as nat),
{
    let ghost start = lines_view(dst@);
    let mut k: usize = 0;
    while k < n
        invariant
            k <= n,
            lines_view(dst@) == start + blank_lines(k as nat),
        decreases n - k,
    {
        let ghost before = dst@;
        dst.push(Vec::new());
        assert(lines_view(dst@) =~= lines_view(before).push(Seq::<char>::empty()));
        k = k + 1;
        assert(lines_view(dst@) =~= start + blank_lines(k as nat));
    }
}

fn pad_block_exec(b: &Vec<Vec<char>>, h: usize, v: u32) -> (r: Vec<Vec<char>>)
    requires
        v <= 1000,
    ensures
        lines_view(r@) == pad_block(lines_view(b@), h as nat, v as nat),
{
    let mut r: Vec<Vec<char>> = Vec::new();
    if b.len() >= h {
        push_lines(&mut r, b);
        assert(lines_view(r@) =~= lines_view(b@));
    } else {
        let need = h - b.len();
        if v == 0 {
            push_lines(&mut r, b);
            push_blank_lines(&mut r, need);
        } else if v == 1000 {
            push_blank_lines(&mut r, need);
            push_lines(&mut r, b);
        } else {
            let split = scale_round(need, v);
            push_blank_lines(&mut r, split);
            push_lines(&mut r, b);
            push_blank_lines(&mut r, need - split);
        }
        assert(lines_view(r@) =~= pad_block(lines_view(b@), h as nat, v as nat));
    }
    r
}

/// The characters of `n` spaces, at most `MAX_REPEAT_COUNT` of them.
fn space_chars(n: usize) -> (r: Vec<char>)
    ensures
        r@ == capped_repeat(' ', n as nat),
{
    let s = safe_repeat(' ', n);
    chars_of(s.as_str())
}

/// Joins blocks side by side. Shorter blocks get empty lines (below them
/// at the top, above them at the bottom, else split by the position) and
/// every line is padded with spaces to its block's width.
pub fn join_horizontal(pos: Position, strs: &[&str]) -> (out: String)
    ensures
        out@ == joined_horizontal(clamped_position(pos), strs_view(strs@)),
{
    let ghost sv = strs_view(strs@);
    if strs.len() == 0 {
        return String::new();
    }
    if strs.len() == 1 {
        return to_owned_string(strs[0]);
    }
    let n = strs.len();
    let mut blocks: Vec<Vec<Vec<char>>> = Vec::new();
    let mut widths: Vec<usize> = Vec::new();
    let mut max_height: usize = 0;
    let mut k: usize = 0;
    while k < n
        invariant
            k <= n,
            n == strs.len(),
            sv == strs_view(strs@),
            blocks@.len() == k,
            widths@.len() == k,
            forall|q: int| 0 <= q < k ==> lines_view(#[trigger] blocks@[q]@) == split_lines(sv[q]),
            forall|q: int| 0 <= q < k ==> #[trigger] widths@[q] == max_visible_width(split_lines(sv[q])),
            max_height == max_line_count(sv.take(k as int)),
        decreases n - k,
    {
        let cs = chars_of(strs[k]);
        let ls = split_lines_exec(cs.as_slice());
        let w = max_width_of_lines(&ls);
        assert(sv.take(k + 1).drop_last() =~= sv.take(k as int));
        assert(sv.take(k + 1).last() == sv[k as int]);
        if ls.len() > max_height {
            max_height = ls.len();
        }
        blocks.push(ls);
        widths.push(w);
        k = k + 1;
    }
    assert(sv.take(n as int) =~= sv);
    let v = pos.value();
    let mut padded: Vec<Vec<Vec<char>>> = Vec::new();
    let mut k: usize = 0;
    while k < n
        invariant
            k <= n,
            n == blocks@.len(),
            v == clamped_position(pos),
            forall|q: int| 0 <= q < n ==> lines_view(#[trigger] blocks@[q]@) == split_lines(sv[q]),
            padded@.len() == k,
            forall|q: int| 0 <= q < k ==> lines_view(#[trigger] padded@[q]@) == pad_block(
                split_lines(sv[q]),
                max_height as nat,
                v as nat,
            ),
        decreases n - k,
    {
        let pb = pad_block_exec(&blocks[k], max_height, v);
        padded.push(pb);
        k = k + 1;
    }
    let mut rows: Vec<Vec<char>> = Vec::new();
    let mut i: usize = 0;
    while i < max_height
        invariant
            i <= max_height,
            n == padded@.len(),
            n == widths@.len(),
            n == sv.len(),
            forall|q: int| 0 <= q < n ==> lines_view(#[trigger] padded@[q]@) == pad_block(
                split_lines(sv[q]),
                max_height as nat,
                v as nat,
            ),
            forall|q: int| 0 <= q < n ==> #[trigger] widths@[q] == max_visible_width(split_lines(sv[q])),
            rows@.len() == i,
            forall|t: int| 0 <= t < i ==> #[trigger] rows@[t]@ == row_upto(
                sv,
                max_height as nat,
                v as nat,
                t,
                n as nat,
            ),
        decreases max_height - i,
    {
        let mut row: Vec<char> = Vec::new();
        let mut j: usize = 0;
        while j < n
            invariant
                j <= n,
                i < max_height,
                n == padded@.len(),
                n == widths@.len(),
                n == sv.len(),
                forall|q: int| 0 <= q < n ==> lines_view(#[trigger] padded@[q]@) == pad_block(
                    split_lines(sv[q]),
                    max_height as nat,
                    v as nat,
                ),
                forall|q: int| 0 <= q < n ==> #[trigger] widths@[q] == max_visible_width(split_lines(sv[q])),
                row@ == row_upto(sv, max_height as nat, v as nat, i as int, j as nat),
            decreases n - j,
        {
            let pb = &padded[j];
            let ghost pbv = lines_view(pb@);
            let empty: Vec<char> = Vec::new();
            let line: &Vec<char> = if i < pb.len() { &pb[i] } else { &empty };
            assert(line@ == (if 0 <= i < pbv.len() { pbv[i as int] } else { Seq::<char>::empty() }));
            let lw = width_visible_chars(line.as_slice());
            let pad = if widths[j] > lw { widths[j] - lw } else { 0 };
            append_chars(&mut row, line.as_slice());
            let sp = space_chars(pad);
            append_chars(&mut row, sp.as_slice());
            assert(row@ =~= row_upto(sv, max_height as nat, v as nat, i as int, (j + 1) as nat));
            j = j + 1;
        }
        rows.push(row);
        i = i + 1;
    }
    assert(lines_view(rows@) =~= Seq::new(
        max_height as nat,
        |t: int| row_upto(sv, max_height as nat, v as nat, t, sv.len()),
    ));
    let joined = join_lines_exec(&rows);
    string_from_chars(joined.as_slice())
}

/// Joins blocks one above the other, padding every line with spaces to the
/// widest line (after it at the left, before it at the right, else split
/// by the position).
pub fn join_vertical(pos: Position, strs: &[&str]) -> (out: String)
    ensures
        out@ == joined_vertical(clamped_position(pos), strs_view(strs@)),
{
    let ghost sv = strs_view(strs@);
    if strs.len() == 0 {
        return String::new();
    }
    if strs.len() == 1 {
        return to_owned_string(strs[0]);
    }
    let n = strs.len();
    let mut all: Vec<Vec<char>> = Vec::new();
    let mut k: usize = 0;
    assert(sv.take(0) =~= Seq::<Seq<char>>::empty());
    while k < n
        invariant
            k <= n,
            n == strs.len(),
            sv == strs_view(strs@),
            lines_view(all@) == all_lines(sv.take(k as int)),
        decreases n - k,
    {
        let cs = chars_of(strs[k]);
        let ls = split_lines_exec(cs.as_slice());
        assert(sv.take(k + 1).drop_last() =~= sv.take(k as int));
        assert(sv.take(k + 1).last() == sv[k as int]);
        push_lines(&mut all, &ls);
        k = k + 1;
    }
    assert(sv.take(n as int) =~= sv);
    let ghost ls = all_lines(sv);
    let w = max_width_of_lines(&all);
    let v = pos.value();
    let mut out_lines: Vec<Vec<char>> = Vec::new();
    let mut i: usize = 0;
    while i < all.len()
        invariant
            i <= all.len(),
            lines_view(all@) == ls,
            w == max_visible_width(ls),
            v == clamped_position(pos),
            out_lines@.len() == i,
            forall|t: int| 0 <= t < i ==> #[trigger] out_lines@[t]@ == pad_line(ls[t], w as nat, v as nat),
        decreases all.len() - i,
    {
        let l = &all[i];
        assert(l@ == ls[i as int]);
        let lw = width_visible_chars(l.as_slice());
        let gap = if w > lw { w - lw } else { 0 };
        let mut line: Vec<char> = Vec::new();
        if v == 0 {
            append_chars(&mut line, l.as_slice());
            let sp = space_chars(gap);
            append_chars(&mut line, sp.as_slice());
        } else if v == 1000 {
            let sp = space_chars(gap);
            append_chars(&mut line, sp.as_slice());
            append_chars(&mut line, l.as_slice());
        } else if gap < 1 {
            append_chars(&mut line, l.as_slice());
        } else {
            let split = scale_round(gap, v);
            let right = gap - split;
            let left = gap - right;
            let sl = space_chars(left);
            let sr = space_chars(right);
            append_chars(&mut line, sl.as_slice());
            append_chars(&mut line, l.as_slice());
            append_chars(&mut line, sr.as_slice());
        }
        assert(line@ =~= pad_line(ls[i as int], w as nat, v as nat));
        out_lines.push(line);
        i = i + 1;
    }
    assert(lines_view(out_lines@) =~= ls.map_values(|l: Seq<char>| pad_line(l, w as nat, v as nat)));
    let joined = join_lines_exec(&out_lines);
    string_from_chars(joined.as_slice())
}

// ---------------------------------------------------------------------
// Where joined text lands
// ---------------------------------------------------------------------

/// Spaces that bring `l` to `w` cells (none when it is at least that wide).
pub open spec fn spaces_short(l: Seq<char>, w: nat) -> nat {
    if w >= visible_width(l) { (w - visible_width(l)) as nat } else { 0 }
}

/// `l` in `w` cells at position `v`: `scaled_round(gap, v)` spaces (the
/// gap times the position, rounded) before it, the rest of the gap after.
pub open spec fn spread_line(l: Seq<char>, w: nat, v: nat) -> Seq<char> {
    let gap = spaces_short(l, w);
    capped_repeat(' ', scaled_round(gap, v)) + l + capped_repeat(' ', (gap - scaled_round(gap, v)) as nat)
}

proof fn lemma_pad_line_spread(l: Seq<char>, w: nat, v: nat)
    requires
        v <= 1000,
    ensures
        pad_line(l, w, v) == spread_line(l, w, v),
{
    let gap = spaces_short(l, w);
    law_lead_grows_with_position(gap, v, 1000);
    law_lead_grows_with_position(gap, 0, v);
    lemma_scaled_round_bound(gap, v);
    if v == 0 {
        assert(capped_repeat(' ', 0) + l =~= l);
    } else if v == 1000 {
        assert(l + capped_repeat(' ', 0) =~= l);
    } else if gap < 1 {
        assert(gap == 0);
        assert(capped_repeat(' ', 0) + l + capped_repeat(' ', 0) =~= l);
    }
}

/// Joining blocks one above the other keeps every line of every block, in
/// order, each on a line of its own, with the spaces that bring it to the
/// widest line's width split around it by the position: `scaled_round(gap, v)`
/// before it (none at the left, all at the right, half at the center) and
/// the rest after it.
pub proof fn law_join_vertical_lines(v: nat, blocks: Seq<Seq<char>>)
    requires
        blocks.len() >= 2,
        v <= 1000,
    ensures
        joined_vertical(v, blocks) == join_lines(
            all_lines(blocks).map_values(
                |l: Seq<char>| spread_line(l, max_visible_width(all_lines(blocks)), v),
            ),
        ),
{
    let ls = all_lines(blocks);
    let w = max_visible_width(ls);
    let p = ls.map_values(|l: Seq<char>| pad_line(l, w, v));
    let q = ls.map_values(|l: Seq<char>| spread_line(l, w, v));
    assert forall|i: int| 0 <= i < ls.len() implies #[trigger] p[i] == q[i] by {
        lemma_pad_line_spread(ls[i], w, v);
    }
    assert(p =~= q);
}

/// Line `i` of the lines `b` given `h` rows at position `v`: the lines
/// start after `scaled_round(h - b.len(), v)` empty rows, and every other
/// row is empty.
pub open spec fn placed_row(b: Seq<Seq<char>>, h: nat, v: nat, i: int) -> Seq<char> {
    let top: nat = if h > b.len() { scaled_round((h - b.len()) as nat, v) } else { 0 };
    if top <= i < top + b.len() { b[i - top] } else { Seq::<char>::empty() }
}

/// Block `j`'s part of row `i` when blocks are joined side by side: the
/// block's line for that row first, then spaces up to the block's width.
pub open spec fn side_cell(blocks: Seq<Seq<char>>, h: nat, v: nat, i: int, j: int) -> Seq<char> {
    let b = split_lines(blocks[j]);
    let l = placed_row(b, h, v, i);
    l + capped_repeat(' ', spaces_short(l, max_visible_width(b)))
}

proof fn lemma_pad_block_row(b: Seq<Seq<char>>, h: nat, v: nat, i: int)
    requires
        v <= 1000,
    ensures
        (if 0 <= i < pad_block(b, h, v).len() { pad_block(b, h, v)[i] } else { Seq::<char>::empty() })
            == placed_row(b, h, v, i),
{
    if b.len() < h {
        let need = (h - b.len()) as nat;
        law_lead_grows_with_position(need, v, 1000);
        law_lead_grows_with_position(need, 0, v);
        lemma_scaled_round_bound(need, v);
        let pb = pad_block(b, h, v);
        let top = scaled_round(need, v);
        if v == 0 {
            assert(pb =~= b + blank_lines(need));
        } else if v == 1000 {
            assert(pb =~= blank_lines(need) + b);
        } else {
            assert(pb =~= blank_lines(top) + b + blank_lines((need - top) as nat));
        }
        assert(pb.len() == h);
        if 0 <= i < h {
            if top <= i < top + b.len() {
                assert(pb[i] == b[i - top]);
            } else {
                assert(pb[i] == Seq::<char>::empty());
            }
        }
    }
}

proof fn lemma_row_upto_cells(blocks: Seq<Seq<char>>, h: nat, v: nat, i: int, j: nat)
    requires
        v <= 1000,
        j <= blocks.len(),
    ensures
        row_upto(blocks, h, v, i, j) == concat(Seq::new(j, |k: int| side_cell(blocks, h, v, i, k))),
    decreases j,
{
    if j == 0 {
        assert(Seq::new(0, |k: int| side_cell(blocks, h, v, i, k)) =~= Seq::<Seq<char>>::empty());
    } else {
        lemma_row_upto_cells(blocks, h, v, i, (j - 1) as nat);
        let b = split_lines(blocks[j - 1]);
        lemma_pad_block_row(b, h, v, i);
        let prev = Seq::new((j - 1) as nat, |k: int| side_cell(blocks, h, v, i, k));
        lemma_concat_push(prev, side_cell(blocks, h, v, i, j - 1));
        assert(prev.push(side_cell(blocks, h, v, i, j - 1)) =~= Seq::new(j, |k: int| side_cell(blocks, h, v, i, k)));
    }
}

/// Joining blocks side by side makes as many rows as the tallest block
/// has lines; row `i` is, block after block, the block's line for that row
/// (its lines start after `scaled_round(missing rows, v)` empty rows: at
/// the top, the bottom, or split by the position) followed by the spaces
/// that bring it to the block's width, so each block's text starts at the
/// block's left edge.
pub proof fn law_join_horizontal_rows(v: nat, blocks: Seq<Seq<char>>)
    requires
        blocks.len() >= 2,
        v <= 1000,
    ensures
        joined_horizontal(v, blocks) == join_lines(
            Seq::new(
                max_line_count(blocks),
                |i: int| concat(Seq::new(blocks.len(), |j: int| side_cell(blocks, max_line_count(blocks), v, i, j))),
            ),
        ),
{
    let h = max_line_count(blocks);
    let a = Seq::new(h, |i: int| row_upto(blocks, h, v, i, blocks.len()));
    let c = Seq::new(h, |i: int| concat(Seq::new(blocks.len(), |j: int| side_cell(blocks, h, v, i, j))));
    assert forall|i: int| 0 <= i < h implies #[trigger] a[i] == c[i] by {
        lemma_row_upto_cells(blocks, h, v, i, blocks.len());
    }
    assert(a =~= c);
}

/// The rows that blocks joined side by side take: as many as the tallest
/// block has lines, no fewer than any block has, and one block has exactly
/// that many.
pub proof fn law_max_line_count(blocks: Seq<Seq<char>>)
    requires
        blocks.len() >= 1,
    ensures
        forall|j: int| 0 <= j < blocks.len() ==> split_lines(#[trigger] blocks[j]).len() <= max_line_count(blocks),
        exists|j: int| 0 <= j < blocks.len() && split_lines(#[trigger] blocks[j]).len() == max_line_count(blocks),
    decreases blocks.len(),
{
    let init = blocks.drop_last();
    let c = split_lines(blocks.last()).len();
    if blocks.len() == 1 {
        assert(init.len() == 0);
        assert(split_lines(blocks[0]).len() == max_line_count(blocks));
    } else {
        law_max_line_count(init);
        assert forall|j: int| 0 <= j < blocks.len() implies split_lines(#[trigger] blocks[j]).len() <= max_line_count(blocks) by {
            if j < init.len() {
                assert(blocks[j] == init[j]);
            }
        }
        if c > max_line_count(init) {
            assert(split_lines(blocks[blocks.len() - 1]).len() == max_line_count(blocks));
        } else {
            let j = choose|j: int| 0 <= j < init.len() && split_lines(#[trigger] init[j]).len() == max_line_count(init);
            assert(blocks[j] == init[j]);
        }
    }
}

} // verus!
