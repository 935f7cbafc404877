//! The text stages of rendering: choosing and normalising the text, tabs,
//! maximum sizes, wrapping to the width, and padding.

use vstd::prelude::*;
use crate::join::blank_lines;
use crate::security::{capped_repeat, safe_repeat};
use crate::strings::{append_chars, chars_of};
use crate::style::data::{Style, TextTransform};
use crate::style::equality::tab_view;
use crate::style::keys::{
    ATTR_INLINE, INLINE_KEY, MAX_HEIGHT_KEY, MAX_WIDTH_KEY, PADDING_BOTTOM_KEY, PADDING_LEFT_KEY,
    PADDING_RIGHT_KEY, PADDING_TOP_KEY, WIDTH_KEY,
};
use crate::style::render_utils::{first_lines, first_lines_chars, replace_char, replace_char_exec};
use crate::style::wrap::{word_wrap, word_wrap_chars};
use crate::text::{join_lines, join_lines_exec, lines_view, split_lines, split_lines_exec};

verus! {

/// The text a style renders: its own text when it has one, else `s`.
pub open spec fn content_of<T>(st: Style<T>, s: Seq<char>) -> Seq<char> {
    if st.value@.len() > 0 { st.value@ } else { s }
}

/// `s` with `\r\n` turned into `\n` and any other `\r` into `\n`.
pub open spec fn crlf(s: Seq<char>) -> Seq<char>
    decreases s.len(),
{
    if s.len() == 0 {
        Seq::<char>::empty()
    } else if s[0] == '\r' {
        if s.len() > 1 && s[1] == '\n' {
            crlf(s.drop_first())
        } else {
            seq!['\n'] + crlf(s.drop_first())
        }
    } else {
        seq![s[0]] + crlf(s.drop_first())
    }
}

/// The text after line endings are normalised and, for an inline style,
/// newlines removed.
pub open spec fn prepared<T>(st: Style<T>, s: Seq<char>) -> Seq<char> {
    let c = crlf(content_of(st, s));
    if st.flag(INLINE_KEY, ATTR_INLINE) { replace_char(c, '\n', Seq::<char>::empty()) } else { c }
}

/// Tabs removed (tab width 0), turned into spaces (positive) or kept.
pub open spec fn tabs_done<T>(st: Style<T>, t: Seq<char>) -> Seq<char> {
    let tw = tab_view(st);
    if tw == 0 {
        replace_char(t, '\t', Seq::<char>::empty())
    } else if tw > 0 {
        replace_char(t, '\t', capped_repeat(' ', tw as nat))
    } else {
        t
    }
}

/// Every line of `t` word wrapped to `cw` cells.
pub open spec fn wrap_all(t: Seq<char>, cw: nat) -> Seq<char> {
    join_lines(flatten_lines(split_lines(t).map_values(|l: Seq<char>| word_wrap(l, cw))))
}

/// The text cut to the maximum height, then every line word wrapped to
/// the maximum width less the side padding, where those are set (and room
/// is left inside the padding).
pub open spec fn max_done<T>(st: Style<T>, t: Seq<char>) -> Seq<char> {
    let mh = st.dim(MAX_HEIGHT_KEY, st.max_height);
    let a = if mh > 0 { first_lines(t, mh as nat) } else { t };
    let mw = st.dim(MAX_WIDTH_KEY, st.max_width);
    let cw = mw - pad_of(st, PADDING_LEFT_KEY, st.padding_left) - pad_of(st, PADDING_RIGHT_KEY, st.padding_right);
    if mw > 0 && cw > 0 { wrap_all(a, cw as nat) } else { a }
}

/// Padding on one side: the value when set and positive, else 0.
pub open spec fn pad_of<T>(st: Style<T>, k: u64, v: i32) -> nat {
    if st.has(k) && v > 0 { v as nat } else { 0 }
}

/// The lines of each group, in order.
pub open spec fn flatten_lines(g: Seq<Seq<Seq<char>>>) -> Seq<Seq<char>>
    decreases g.len(),
{
    if g.len() == 0 {
        Seq::<Seq<char>>::empty()
    } else {
        flatten_lines(g.drop_last()) + g.last()
    }
}

/// Every line word wrapped to the width less the side padding, when a
/// width is set and room is left.
pub open spec fn wrapped<T>(st: Style<T>, t: Seq<char>) -> Seq<char> {
    let w = st.dim(WIDTH_KEY, st.width);
    let cw = w - pad_of(st, PADDING_LEFT_KEY, st.padding_left) - pad_of(st, PADDING_RIGHT_KEY, st.padding_right);
    if w > 0 && cw > 0 {
        wrap_all(t, cw as nat)
    } else {
        t
    }
}

/// Every line with spaces added left and right.
pub open spec fn padded_lr(t: Seq<char>, pl: nat, pr: nat) -> Seq<char> {
    if pl > 0 || pr > 0 {
        join_lines(split_lines(t).map_values(|l: Seq<char>| capped_repeat(' ', pl) + l + capped_repeat(' ', pr)))
    } else {
        t
    }
}

/// Empty lines added above and below.
pub open spec fn padded_tb(t: Seq<char>, pt: nat, pb: nat) -> Seq<char> {
    if pt > 0 || pb > 0 {
        join_lines(blank_lines(pt) + split_lines(t) + blank_lines(pb))
    } else {
        t
    }
}

/// The laid-out text before colors, alignment and borders: tabs, maximum
/// sizes, wrapping and padding applied in that order.
pub open spec fn body<T>(st: Style<T>, t: Seq<char>) -> Seq<char> {
    let x = wrapped(st, max_done(st, tabs_done(st, t)));
    let y = padded_lr(x, pad_of(st, PADDING_LEFT_KEY, st.padding_left), pad_of(st, PADDING_RIGHT_KEY, st.padding_right));
    padded_tb(y, pad_of(st, PADDING_TOP_KEY, st.padding_top), pad_of(st, PADDING_BOTTOM_KEY, st.padding_bottom))
}

// ---------------------------------------------------------------------
// Exec stages
// ---------------------------------------------------------------------

/// Normalises line endings.
pub fn crlf_exec(s: &[char]) -> (r: Vec<char>)
    ensures
        r@ == crlf(s@),
{
    let mut r: Vec<char> = Vec::new();
    let mut i: usize = 0;
    assert(s@.skip(0) =~= s@);
    while i < s.len()
        invariant
            i <= s.len(),
            r@ + crlf(s@.skip(i as int)) == crlf(s@),
        decreases s.len() - i,
    {
        let ghost rest = s@.skip(i as int);
        assert(rest.drop_first() =~= s@.skip(i + 1));
        assert(rest[0] == s@[i as int]);
        if s[i] == '\r' {
            if i + 1 < s.len() && s[i + 1] == '\n' {
                assert(rest[1] == s@[i + 1]);
            } else {
                r.push('\n');
                assert(r@ + crlf(s@.skip(i + 1)) =~= crlf(s@));
            }
        } else {
            r.push(s[i]);
            assert(r@ + crlf(s@.skip(i + 1)) =~= crlf(s@));
        }
        i = i + 1;
    }
    assert(s@.skip(s.len() as int) =~= Seq::<char>::empty());
    assert(r@ =~= crlf(s@));
    r
}

/// The text a style renders, prepared.
pub fn prepared_exec<T: TextTransform>(st: &Style<T>, s: &str) -> (r: Vec<char>)
    ensures
        r@ == prepared(*st, s@),
{
    let content = if !st.value.as_str().is_empty() { chars_of(st.value.as_str()) } else { chars_of(s) };
    let c = crlf_exec(content.as_slice());
    if st.get_inline() {
        let empty: Vec<char> = Vec::new();
        replace_char_exec(c.as_slice(), '\n', empty.as_slice())
    } else {
        c
    }
}

/// Tabs handled by the tab width.
pub fn tabs_exec<T: TextTransform>(st: &Style<T>, t: &[char]) -> (r: Vec<char>)
    ensures
        r@ == tabs_done(*st, t@),
{
    let tw = st.get_tab_width();
    if tw == 0 {
        let empty: Vec<char> = Vec::new();
        replace_char_exec(t, '\t', empty.as_slice())
    } else if tw > 0 {
        let sp = chars_of(safe_repeat(' ', tw as usize).as_str());
        replace_char_exec(t, '\t', sp.as_slice())
    } else {
        let mut r: Vec<char> = Vec::new();
        append_chars(&mut r, t);
        assert(r@ =~= t@);
        r
    }
}

/// Maximum height and width applied.
pub fn max_exec<T: TextTransform>(st: &Style<T>, t: &[char]) -> (r: Vec<char>)
    requires
        st.wf(),
    ensures
        r@ == max_done(*st, t@),
{
    let mh = st.get_max_height();
    let a = if mh > 0 {
        first_lines_chars(t, mh as usize)
    } else {
        let mut r: Vec<char> = Vec::new();
        append_chars(&mut r, t);
        assert(r@ =~= t@);
        r
    };
    let mw = st.get_max_width();
    let pl = pad_of_exec(st, PADDING_LEFT_KEY, st.padding_left);
    let pr = pad_of_exec(st, PADDING_RIGHT_KEY, st.padding_right);
    let cw: i64 = mw as i64 - pl as i64 - pr as i64;
    if mw > 0 && cw > 0 {
        wrap_all_exec(a.as_slice(), cw as usize)
    } else {
        a
    }
}

/// Padding on one side.
fn pad_of_exec<T: TextTransform>(st: &Style<T>, k: u64, v: i32) -> (n: usize)
    requires
        k < 64,
    ensures
        n == pad_of(*st, k, v),
{
    if st.is_set(k) && v > 0 { v as usize } else { 0 }
}

/// Word wrapping to the width.
pub fn wrap_exec<T: TextTransform>(st: &Style<T>, t: &[char]) -> (r: Vec<char>)
    requires
        st.wf(),
    ensures
        r@ == wrapped(*st, t@),
{
    let w = st.get_width();
    let pl = pad_of_exec(st, PADDING_LEFT_KEY, st.padding_left);
    let pr = pad_of_exec(st, PADDING_RIGHT_KEY, st.padding_right);
    let cw: i64 = w as i64 - pl as i64 - pr as i64;
    if !(w > 0 && cw > 0) {
        let mut r: Vec<char> = Vec::new();
        append_chars(&mut r, t);
        assert(r@ =~= t@);
        return r;
    }
    wrap_all_exec(t, cw as usize)
}

/// Every line word wrapped to `cwu` cells.
pub fn wrap_all_exec(t: &[char], cwu: usize) -> (r: Vec<char>)
    ensures
        r@ == wrap_all(t@, cwu as nat),
{
    let lines = split_lines_exec(t);
    let ghost ls = split_lines(t@);
    let ghost groups = ls.map_values(|l: Seq<char>| word_wrap(l, cwu as nat));
    let mut out: Vec<Vec<char>> = Vec::new();
    let mut i: usize = 0;
    assert(groups.take(0) =~= Seq::<Seq<Seq<char>>>::empty());
    while i < lines.len()
        invariant
            i <= lines.len(),
            lines_view(lines@) == ls,
            groups == ls.map_values(|l: Seq<char>| word_wrap(l, cwu as nat)),
            lines_view(out@) == flatten_lines(groups.take(i as int)),
        decreases lines.len() - i,
    {
        let parts = word_wrap_chars(lines[i].as_slice(), cwu);
        let ghost before = lines_view(out@);
        let mut k: usize = 0;
        while k < parts.len()
            invariant
                k <= parts.len(),
                lines_view(out@) == before + parts@.map_values(|l: Vec<char>| l@).take(k as int),
            decreases parts.len() - k,
        {
            let mut l: Vec<char> = Vec::new();
            append_chars(&mut l, parts[k].as_slice());
            let ghost b2 = lines_view(out@);
            let ghost lv = l@;
            out.push(l);
            assert(lines_view(out@) =~= b2.push(lv));
            assert(parts@.map_values(|l: Vec<char>| l@).take(k + 1) =~= parts@.map_values(|l: Vec<char>| l@).take(
                k as int,
            ).push(lv));
            k = k + 1;
        }
        assert(parts@.map_values(|l: Vec<char>| l@).take(parts.len() as int) =~= parts@.map_values(
            |l: Vec<char>| l@,
        ));
        assert(groups.take(i + 1).drop_last() =~= groups.take(i as int));
        i = i + 1;
    }
    assert(groups.take(lines.len() as int) =~= groups);
    join_lines_exec(&out)
}


/// Spaces added left and right of every line.
pub fn pad_lr_exec(t: &[char], pl: usize, pr: usize) -> (r: Vec<char>)
    ensures
        r@ == padded_lr(t@, pl as nat, pr as nat),
{
    if !(pl > 0 || pr > 0) {
        let mut r: Vec<char> = Vec::new();
        append_chars(&mut r, t);
        assert(r@ =~= t@);
        return r;
    }
    let lp = chars_of(safe_repeat(' ', pl).as_str());
    let rp = chars_of(safe_repeat(' ', pr).as_str());
    let lines = split_lines_exec(t);
    let ghost ls = split_lines(t@);
    let mut out: Vec<Vec<char>> = Vec::new();
    let mut i: usize = 0;
    while i < lines.len()
        invariant
            i <= lines.len(),
            lines_view(lines@) == ls,
            lp@ == capped_repeat(' ', pl as nat),
            rp@ == capped_repeat(' ', pr as nat),
            out@.len() == i,
            forall|k: int| 0 <= k < i ==> #[trigger] out@[k]@ == capped_repeat(' ', pl as nat) + ls[k]
                + capped_repeat(' ', pr as nat),
        decreases lines.len() - i,
    {
        let mut l: Vec<char> = Vec::new();
        append_chars(&mut l, lp.as_slice());
        append_chars(&mut l, lines[i].as_slice());
        append_chars(&mut l, rp.as_slice());
        out.push(l);
        i = i + 1;
    }
    assert(lines_view(out@) =~= ls.map_values(
        |l: Seq<char>| capped_repeat(' ', pl as nat) + l + capped_repeat(' ', pr as nat),
    ));
    join_lines_exec(&out)
}

/// Empty lines added above and below.
pub fn pad_tb_exec(t: &[char], pt: usize, pb: usize) -> (r: Vec<char>)
    ensures
        r@ == padded_tb(t@, pt as nat, pb as nat),
{
    if !(pt > 0 || pb > 0) {
        let mut r: Vec<char> = Vec::new();
        append_chars(&mut r, t);
        assert(r@ =~= t@);
        return r;
    }
    let lines = split_lines_exec(t);
    let mut out: Vec<Vec<char>> = Vec::new();
    let mut k: usize = 0;
    while k < pt
        invariant
            k <= pt,
            lines_view(out@) == blank_lines(k as nat),
        decreases pt - k,
    {
        let ghost b = lines_view(out@);
        out.push(Vec::new());
        assert(lines_view(out@) =~= b.push(Seq::<char>::empty()));
        assert(lines_view(out@) =~= blank_lines((k + 1) as nat));
        k = k + 1;
    }
    let ghost top = lines_view(out@);
    let mut i: usize = 0;
    while i < lines.len()
        invariant
            i <= lines.len(),
            lines_view(out@) == top + lines_view(lines@).take(i as int),
        decreases lines.len() - i,
    {
        let mut l: Vec<char> = Vec::new();
        append_chars(&mut l, lines[i].as_slice());
        let ghost b2 = lines_view(out@);
        let ghost lv = l@;
        out.push(l);
        assert(lines_view(out@) =~= b2.push(lv));
        assert(lines_view(lines@).take(i + 1) =~= lines_view(lines@).take(i as int).push(lv));
        i = i + 1;
    }
    assert(lines_view(lines@).take(lines.len() as int) =~= lines_view(lines@));
    let ghost mid = lines_view(out@);
    let mut k: usize = 0;
    while k < pb
        invariant
            k <= pb,
            lines_view(out@) == mid + blank_lines(k as nat),
        decreases pb - k,
    {
        let ghost b = lines_view(out@);
        out.push(Vec::new());
        assert(lines_view(out@) =~= b.push(Seq::<char>::empty()));
        assert(lines_view(out@) =~= mid + blank_lines((k + 1) as nat));
        k = k + 1;
    }
    join_lines_exec(&out)
}

/// The laid-out text before colors, alignment and borders.
pub fn body_exec<T: TextTransform>(st: &Style<T>, t: &[char]) -> (r: Vec<char>)
    requires
        st.wf(),
    ensures
        r@ == body(*st, t@),
{
    let a = tabs_exec(st, t);
    let b = max_exec(st, a.as_slice());
    let c = wrap_exec(st, b.as_slice());
    let pl = pad_of_exec(st, PADDING_LEFT_KEY, st.padding_left);
    let pr = pad_of_exec(st, PADDING_RIGHT_KEY, st.padding_right);
    let d = pad_lr_exec(c.as_slice(), pl, pr);
    let pt = pad_of_exec(st, PADDING_TOP_KEY, st.padding_top);
    let pb = pad_of_exec(st, PADDING_BOTTOM_KEY, st.padding_bottom);
    pad_tb_exec(d.as_slice(), pt, pb)
}

} // verus!
