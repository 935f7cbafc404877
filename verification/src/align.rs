//! Aligning a block of text to an edge or the center of a larger area.

use vstd::prelude::*;
use crate::position::{
    clamped_position, law_placed_vertical_height, lemma_placed_horizontal_newlines,
    lemma_plain_fill_spaces, place_can_fill, placed_horizontal, placed_vertical, ws_fill, Position,
};
use crate::renderer::Renderer;
use crate::strings::chars_of;
use crate::text::{count_newlines, lemma_no_newline_count, lemma_split_lines_len, split_lines, split_lines_exec};
use crate::utils::{max_visible_width, max_width_of_lines, spec_height};
use crate::whitespace::{new_whitespace, WhitespaceOption};

verus! {

/// Horizontal alignment of a block.
#[derive(Debug, Clone, Copy, PartialEq, Eq, Structural)]
pub enum HorizontalAlignment {
    Left,
    Center,
    Right,
}

/// Vertical alignment of a block.
#[derive(Debug, Clone, Copy, PartialEq, Eq, Structural)]
pub enum VerticalAlignment {
    Top,
    Center,
    Bottom,
}

/// The position, in thousandths, that a horizontal alignment stands for.
pub open spec fn h_position(h: HorizontalAlignment) -> nat {
    match h {
        HorizontalAlignment::Left => 0,
        HorizontalAlignment::Center => 500,
        HorizontalAlignment::Right => 1000,
    }
}

/// The position, in thousandths, that a vertical alignment stands for.
pub open spec fn v_position(v: VerticalAlignment) -> nat {
    match v {
        VerticalAlignment::Top => 0,
        VerticalAlignment::Center => 500,
        VerticalAlignment::Bottom => 1000,
    }
}

fn to_position_h(h: HorizontalAlignment) -> (p: Position)
    ensures
        clamped_position(p) == h_position(h),
{
    match h {
        HorizontalAlignment::Left => Position::left(),
        HorizontalAlignment::Center => Position::center(),
        HorizontalAlignment::Right => Position::right(),
    }
}

fn to_position_v(v: VerticalAlignment) -> (p: Position)
    ensures
        clamped_position(p) == v_position(v),
{
    match v {
        VerticalAlignment::Top => Position::top(),
        VerticalAlignment::Center => Position::center(),
        VerticalAlignment::Bottom => Position::bottom(),
    }
}

/// Aligns `s` horizontally in `width` cells.
pub fn align_horizontal(
    r: &Renderer,
    width: i32,
    h: HorizontalAlignment,
    s: &str,
    opts: &[WhitespaceOption],
) -> (out: String)
    ensures
        out@ == placed_horizontal(*r, width as int, h_position(h), s@, opts@),
{
    r.place_horizontal(width, to_position_h(h), s, opts)
}

/// Aligns `s` vertically in `height` lines.
pub fn align_vertical(
    r: &Renderer,
    height: i32,
    v: VerticalAlignment,
    s: &str,
    opts: &[WhitespaceOption],
) -> (out: String)
    ensures
        out@ == placed_vertical(*r, height as int, v_position(v), s@, opts@),
{
    r.place_vertical(height, to_position_v(v), s, opts)
}

/// Aligns `s` in a `width` by `height` area: horizontally, then vertically.
pub fn align(
    r: &Renderer,
    width: i32,
    height: i32,
    h: HorizontalAlignment,
    v: VerticalAlignment,
    s: &str,
    opts: &[WhitespaceOption],
) -> (out: String)
    ensures
        out@ == placed_vertical(
            *r,
            height as int,
            v_position(v),
            placed_horizontal(*r, width as int, h_position(h), s@, opts@),
            opts@,
        ),
{
    let across = align_horizontal(r, width, h, s, opts);
    align_vertical(r, height, v, across.as_str(), opts)
}

/// Aligns `s` as `align` does, or `None` when the whitespace characters all
/// take no cell and a row would need filling.
pub fn try_align(
    r: &Renderer,
    width: i32,
    height: i32,
    h: HorizontalAlignment,
    v: VerticalAlignment,
    s: &str,
    opts: &[WhitespaceOption],
) -> (out: Option<String>)
    ensures
        match out {
            Some(t) => place_can_fill(width as int, height as int, s@, opts@) && t@ == placed_vertical(
                *r,
                height as int,
                v_position(v),
                placed_horizontal(*r, width as int, h_position(h), s@, opts@),
                opts@,
            ),
            None => !place_can_fill(width as int, height as int, s@, opts@),
        },
{
    let ws = new_whitespace(r, opts);
    let cs = chars_of(s);
    let lines = split_lines_exec(cs.as_slice());
    proof {
        lemma_split_lines_len(s@);
    }
    let cw = max_width_of_lines(&lines);
    let fits = (width as i128) <= (cw as i128) && ((height as i128) <= (lines.len() as i128) || cw == 0);
    if fits || ws.can_render() {
        Some(align(r, width, height, h, v, s, opts))
    } else {
        None
    }
}

/// Aligning without whitespace options never cuts a block short: the
/// result has the height asked for, or the block's own height when that
/// is greater.
pub proof fn law_align_height(
    r: Renderer,
    width: i32,
    height: i32,
    h: HorizontalAlignment,
    v: VerticalAlignment,
    s: Seq<char>,
)
    ensures
        spec_height(
            placed_vertical(
                r,
                height as int,
                v_position(v),
                placed_horizontal(r, width as int, h_position(h), s, Seq::<WhitespaceOption>::empty()),
                Seq::<WhitespaceOption>::empty(),
            ),
        ) == if height > spec_height(s) { height as int } else { spec_height(s) as int },
{
    let e = Seq::<WhitespaceOption>::empty();
    let across = placed_horizontal(r, width as int, h_position(h), s, e);
    lemma_placed_horizontal_newlines(r, width as int, h_position(h), s);
    let row = ws_fill(r, e, max_visible_width(split_lines(across)));
    lemma_plain_fill_spaces(r, max_visible_width(split_lines(across)));
    assert forall|j: int| 0 <= j < row.len() implies #[trigger] row[j] != '\n' by {
        assert(row[j] == ' ');
    }
    lemma_no_newline_count(row);
    law_placed_vertical_height(r, height as int, v_position(v), across, e);
}

} // verus!
