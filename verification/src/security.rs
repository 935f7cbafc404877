//! Bounds that keep allocations small when handling untrusted sizes.

use vstd::prelude::*;
use crate::strings::{push_char, push_str};

verus! {

/// Largest accepted width, height, padding, margin and tab width.
pub const MAX_DIMENSION: i32 = 10_000;

/// Largest number of repetitions `safe_repeat` produces.
pub const MAX_REPEAT_COUNT: usize = 10_000;

/// Memory budget of one render, in bytes.
pub const MAX_RENDER_MEMORY_BUDGET: usize = 50_000_000;

/// Longest escape sequence scanned before giving up on its terminator.
pub const MAX_ANSI_SEQ_LEN: usize = 64;

/// `value` clamped into `0..=MAX_DIMENSION`.
pub open spec fn clamp_dimension(value: int) -> int {
    if value < 0 {
        0
    } else if value > MAX_DIMENSION {
        MAX_DIMENSION as int
    } else {
        value
    }
}

/// Clamping is idempotent and lands within `0..=MAX_DIMENSION`.
pub proof fn law_clamp_dimension(value: int)
    ensures
        0 <= clamp_dimension(value) <= MAX_DIMENSION,
        clamp_dimension(clamp_dimension(value)) == clamp_dimension(value),
        0 <= value <= MAX_DIMENSION ==> clamp_dimension(value) == value,
{
}

/// Clamps a dimension into `0..=MAX_DIMENSION`; the name is only informative.
pub fn validate_dimension(value: i32, _name: &str) -> (r: i32)
    ensures
        r == clamp_dimension(value as int),
{
    if value < 0 {
        0
    } else if value > MAX_DIMENSION {
        MAX_DIMENSION
    } else {
        value
    }
}

/// A tab width: any negative value becomes -1 (keep tabs), others are
/// capped at `MAX_DIMENSION`.
pub open spec fn clamp_tab_width(value: int) -> int {
    if value < 0 {
        -1
    } else if value > MAX_DIMENSION {
        MAX_DIMENSION as int
    } else {
        value
    }
}

/// Tab width: any negative value becomes -1 (keep tabs), others are capped.
pub fn validate_tab_width(value: i32) -> (r: i32)
    ensures
        r == clamp_tab_width(value as int),
{
    if value < 0 {
        -1
    } else if value > MAX_DIMENSION {
        MAX_DIMENSION
    } else {
        value
    }
}

/// `count` copies of `ch`, at most `MAX_REPEAT_COUNT` of them.
pub open spec fn capped_repeat(ch: char, count: nat) -> Seq<char> {
    Seq::new(
        if count <= MAX_REPEAT_COUNT { count } else { MAX_REPEAT_COUNT as nat },
        |_i: int| ch,
    )
}

/// `count` copies of `ch`, with the count capped at `MAX_REPEAT_COUNT`.
pub fn safe_repeat(ch: char, count: usize) -> (r: String)
    ensures
        r@ == capped_repeat(ch, count as nat),
{
    let n = if count <= MAX_REPEAT_COUNT { count } else { MAX_REPEAT_COUNT };
    let mut r = String::new();
    let mut i: usize = 0;
    while i < n
        invariant
            i <= n,
            r@ == Seq::new(i as nat, |_i: int| ch),
        decreases n - i,
    {
        push_char(&mut r, ch);
        i = i + 1;
        assert(r@ =~= Seq::new(i as nat, |_i: int| ch));
    }
    r
}

} // verus!

verus! {

/// `s` repeated `n` times.
pub open spec fn repeat_seq(s: Seq<char>, n: nat) -> Seq<char>
    decreases n,
{
    if n == 0 {
        Seq::<char>::empty()
    } else {
        repeat_seq(s, (n - 1) as nat) + s
    }
}

/// How many copies `safe_str_repeat` makes: the request, capped so that the
/// copies hold at most `MAX_REPEAT_COUNT` bytes.
pub open spec fn safe_str_repeat_count(byte_len: nat, count: nat) -> nat {
    if byte_len == 0 || count == 0 {
        0
    } else {
        let cap = (MAX_REPEAT_COUNT as nat) / byte_len;
        if count <= cap { count } else { cap }
    }
}

/// `s` repeated `count` times, with the count capped so that the output
/// holds at most `MAX_REPEAT_COUNT` bytes.
pub fn safe_str_repeat(s: &str, count: usize) -> (r: String)
    ensures
        r@ == repeat_seq(s@, safe_str_repeat_count(s.len() as nat, count as nat)),
{
    let byte_len = s.len();
    if byte_len == 0 || count == 0 {
        assert(repeat_seq(s@, 0) =~= Seq::<char>::empty());
        return String::new();
    }
    let cap = MAX_REPEAT_COUNT / byte_len;
    let n = if count <= cap { count } else { cap };
    let mut r = String::new();
    let mut i: usize = 0;
    assert(repeat_seq(s@, 0) =~= Seq::<char>::empty());
    while i < n
        invariant
            i <= n,
            r@ == repeat_seq(s@, i as nat),
        decreases n - i,
    {
        push_str(&mut r, s);
        i = i + 1;
    }
    r
}

/// Whether an allocation of `size` bytes is within the render budget.
pub fn is_safe_allocation(size: usize) -> (r: bool)
    ensures
        r == (size <= MAX_RENDER_MEMORY_BUDGET),
{
    size <= MAX_RENDER_MEMORY_BUDGET
}

} // verus!
