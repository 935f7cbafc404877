//! Size of a block of text in terminal cells.

use vstd::prelude::*;
use crate::strings::chars_of;
use crate::text::{lemma_split_lines_len, split_lines, split_lines_exec};
use crate::utils::{max_visible_width, max_width_of_lines, spec_height};

verus! {

/// Width of a block: the visible width of its widest line.
pub open spec fn block_width(s: Seq<char>) -> nat {
    max_visible_width(split_lines(s))
}

/// Cell width of `s`: the widest line, escape sequences ignored.
pub fn width(s: &str) -> (w: usize)
    ensures
        w == block_width(s@),
{
    let cs = chars_of(s);
    let lines = split_lines_exec(cs.as_slice());
    max_width_of_lines(&lines)
}

/// Number of lines of `s`.
pub fn height(s: &str) -> (h: usize)
    ensures
        h == spec_height(s@),
{
    crate::utils::height(s)
}

/// Width and height of `s` in cells.
pub fn size(s: &str) -> (r: (usize, usize))
    ensures
        r == (block_width(s@) as usize, spec_height(s@) as usize),
{
    (width(s), height(s))
}

} // verus!
