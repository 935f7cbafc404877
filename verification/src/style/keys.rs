//! Property keys and attribute bits of a style, with the bit-set laws they
//! obey.

use vstd::prelude::*;

verus! {

pub const BOLD_KEY: u64 = 0;
pub const ITALIC_KEY: u64 = 1;
pub const UNDERLINE_KEY: u64 = 2;
pub const STRIKETHROUGH_KEY: u64 = 3;
pub const REVERSE_KEY: u64 = 4;
pub const BLINK_KEY: u64 = 5;
pub const FAINT_KEY: u64 = 6;
pub const UNDERLINE_SPACES_KEY: u64 = 7;
pub const STRIKETHROUGH_SPACES_KEY: u64 = 8;
pub const COLOR_WHITESPACE_KEY: u64 = 9;
pub const FOREGROUND_KEY: u64 = 10;
pub const BACKGROUND_KEY: u64 = 11;
pub const WIDTH_KEY: u64 = 12;
pub const HEIGHT_KEY: u64 = 13;
pub const ALIGN_HORIZONTAL_KEY: u64 = 14;
pub const ALIGN_VERTICAL_KEY: u64 = 15;
pub const PADDING_TOP_KEY: u64 = 16;
pub const PADDING_RIGHT_KEY: u64 = 17;
pub const PADDING_BOTTOM_KEY: u64 = 18;
pub const PADDING_LEFT_KEY: u64 = 19;
pub const MARGIN_TOP_KEY: u64 = 20;
pub const MARGIN_RIGHT_KEY: u64 = 21;
pub const MARGIN_BOTTOM_KEY: u64 = 22;
pub const MARGIN_LEFT_KEY: u64 = 23;
pub const MARGIN_BACKGROUND_KEY: u64 = 24;
pub const BORDER_STYLE_KEY: u64 = 25;
pub const BORDER_TOP_KEY: u64 = 26;
pub const BORDER_RIGHT_KEY: u64 = 27;
pub const BORDER_BOTTOM_KEY: u64 = 28;
pub const BORDER_LEFT_KEY: u64 = 29;
pub const BORDER_TOP_FOREGROUND_KEY: u64 = 30;
pub const BORDER_RIGHT_FOREGROUND_KEY: u64 = 31;
pub const BORDER_BOTTOM_FOREGROUND_KEY: u64 = 32;
pub const BORDER_LEFT_FOREGROUND_KEY: u64 = 33;
pub const BORDER_TOP_BACKGROUND_KEY: u64 = 34;
pub const BORDER_RIGHT_BACKGROUND_KEY: u64 = 35;
pub const BORDER_BOTTOM_BACKGROUND_KEY: u64 = 36;
pub const BORDER_LEFT_BACKGROUND_KEY: u64 = 37;
pub const INLINE_KEY: u64 = 38;
pub const MAX_WIDTH_KEY: u64 = 39;
pub const MAX_HEIGHT_KEY: u64 = 40;
pub const TAB_WIDTH_KEY: u64 = 41;
pub const TRANSFORM_KEY: u64 = 42;

/// Tab width used when none is set.
pub const TAB_WIDTH_DEFAULT: i32 = 4;

pub const ATTR_BOLD: u32 = 0;
pub const ATTR_ITALIC: u32 = 1;
pub const ATTR_UNDERLINE: u32 = 2;
pub const ATTR_STRIKETHROUGH: u32 = 3;
pub const ATTR_REVERSE: u32 = 4;
pub const ATTR_BLINK: u32 = 5;
pub const ATTR_FAINT: u32 = 6;
pub const ATTR_UNDERLINE_SPACES: u32 = 7;
pub const ATTR_STRIKETHROUGH_SPACES: u32 = 8;
pub const ATTR_COLOR_WHITESPACE: u32 = 9;
pub const ATTR_INLINE: u32 = 10;
pub const ATTR_BORDER_TOP: u32 = 11;
pub const ATTR_BORDER_RIGHT: u32 = 12;
pub const ATTR_BORDER_BOTTOM: u32 = 13;
pub const ATTR_BORDER_LEFT: u32 = 14;

/// Whether bit `k` of `p` is set.
pub open spec fn bit64(p: u64, k: u64) -> bool {
    (p >> k) & 1 == 1
}

/// `p` with bit `k` set.
pub open spec fn with_bit64(p: u64, k: u64) -> u64 {
    p | (1u64 << k)
}

/// `p` with bit `k` cleared.
pub open spec fn without_bit64(p: u64, k: u64) -> u64 {
    p & !(1u64 << k)
}

/// Whether bit `k` of `a` is set.
pub open spec fn bit32(a: u32, k: u32) -> bool {
    (a >> k) & 1 == 1
}

/// `a` with bit `k` set to `v`.
pub open spec fn put_bit32(a: u32, k: u32, v: bool) -> u32 {
    if v { a | (1u32 << k) } else { a & !(1u32 << k) }
}

proof fn lemma_bits64(p: u64, k: u64, j: u64)
    by (bit_vector)
    requires
        k < 64,
        j < 64,
    ensures
        ((p | (1u64 << k)) >> j) & 1 == 1 <==> (k == j || (p >> j) & 1 == 1),
        ((p & !(1u64 << k)) >> j) & 1 == 1 <==> (k != j && (p >> j) & 1 == 1),
        (0u64 >> j) & 1 != 1,
{
}

proof fn lemma_bits32(a: u32, k: u32, j: u32)
    by (bit_vector)
    requires
        k < 32,
        j < 32,
    ensures
        ((a | (1u32 << k)) >> j) & 1 == 1 <==> (k == j || (a >> j) & 1 == 1),
        ((a & !(1u32 << k)) >> j) & 1 == 1 <==> (k != j && (a >> j) & 1 == 1),
        (0u32 >> j) & 1 != 1,
{
}

/// Setting a bit sets it and leaves the others.
pub broadcast proof fn lemma_with_bit64(p: u64, k: u64, j: u64)
    requires
        k < 64,
        j < 64,
    ensures
        #[trigger] bit64(with_bit64(p, k), j) == (k == j || bit64(p, j)),
{
    lemma_bits64(p, k, j);
}

/// Clearing a bit clears it and leaves the others.
pub broadcast proof fn lemma_without_bit64(p: u64, k: u64, j: u64)
    requires
        k < 64,
        j < 64,
    ensures
        #[trigger] bit64(without_bit64(p, k), j) == (k != j && bit64(p, j)),
{
    lemma_bits64(p, k, j);
}

/// No bit of zero is set.
pub broadcast proof fn lemma_zero_bit64(j: u64)
    requires
        j < 64,
    ensures
        !#[trigger] bit64(0, j),
{
    lemma_bits64(0, 0, j);
}

/// Putting a bit gives it the value and leaves the others.
pub broadcast proof fn lemma_put_bit32(a: u32, k: u32, v: bool, j: u32)
    requires
        k < 32,
        j < 32,
    ensures
        #[trigger] bit32(put_bit32(a, k, v), j) == (if k == j { v } else { bit32(a, j) }),
{
    lemma_bits32(a, k, j);
}

/// No bit of zero is set.
pub broadcast proof fn lemma_zero_bit32(j: u32)
    requires
        j < 32,
    ensures
        !#[trigger] bit32(0, j),
{
    lemma_bits32(0, 0, j);
}

pub broadcast group group_style_bits {
    lemma_with_bit64,
    lemma_without_bit64,
    lemma_zero_bit64,
    lemma_put_bit32,
    lemma_zero_bit32,
}

} // verus!
