//! What holds of styles and of the text operations they render with.

use vstd::prelude::*;
use crate::style::data::{is_blank_style, Style};
use crate::style::equality::equivalent;
use crate::style::keys::{
    ALIGN_HORIZONTAL_KEY, ALIGN_VERTICAL_KEY, ATTR_BLINK, ATTR_BORDER_BOTTOM, ATTR_BORDER_LEFT,
    ATTR_BORDER_RIGHT, ATTR_BORDER_TOP, ATTR_COLOR_WHITESPACE, ATTR_FAINT, ATTR_INLINE,
    ATTR_ITALIC, ATTR_REVERSE, ATTR_STRIKETHROUGH, ATTR_STRIKETHROUGH_SPACES, ATTR_UNDERLINE,
    ATTR_UNDERLINE_SPACES, BACKGROUND_KEY, BLINK_KEY, BORDER_BOTTOM_BACKGROUND_KEY,
    BORDER_BOTTOM_FOREGROUND_KEY, BORDER_BOTTOM_KEY, BORDER_LEFT_BACKGROUND_KEY,
    BORDER_LEFT_FOREGROUND_KEY, BORDER_LEFT_KEY, BORDER_RIGHT_BACKGROUND_KEY,
    BORDER_RIGHT_FOREGROUND_KEY, BORDER_RIGHT_KEY, BORDER_STYLE_KEY, BORDER_TOP_BACKGROUND_KEY,
    BORDER_TOP_FOREGROUND_KEY, BORDER_TOP_KEY, COLOR_WHITESPACE_KEY, FAINT_KEY, FOREGROUND_KEY,
    INLINE_KEY, ITALIC_KEY, REVERSE_KEY, STRIKETHROUGH_KEY, STRIKETHROUGH_SPACES_KEY,
    TRANSFORM_KEY, UNDERLINE_KEY, UNDERLINE_SPACES_KEY,
    ATTR_BOLD, BOLD_KEY, group_style_bits, put_bit32, with_bit64, without_bit64, HEIGHT_KEY,
    MARGIN_BOTTOM_KEY, MARGIN_LEFT_KEY, MARGIN_RIGHT_KEY, MARGIN_TOP_KEY, MAX_HEIGHT_KEY,
    MAX_WIDTH_KEY, PADDING_BOTTOM_KEY, PADDING_LEFT_KEY, PADDING_RIGHT_KEY, PADDING_TOP_KEY,
    TAB_WIDTH_KEY, WIDTH_KEY,
};
use crate::style::render_utils::{first_lines, replace_char};
use crate::style::rules::{inherit_keys, inherit_step, inherit_upto, inherited, take_key};
use crate::text::{
    concat, count_newlines, lemma_concat_push, lemma_join_count_newlines, lemma_join_split,
    join_lines, lemma_join_take_prefix, lemma_split_join, lemma_split_lines_len,
    lemma_split_lines_no_newline, split_lines,
};
use crate::style::wrap::{
    cell_width, esc_scan, hard_wrap, hard_wrap_from, lemma_esc_scan_bound, tokens, tokens_from, truncate_from,
    truncate_line, word_wrap, word_wrap_from,
};
use crate::renderer::ColorProfileKind;
use crate::utils::visible_width;
use crate::security::{capped_repeat, clamp_dimension, clamp_tab_width};
use crate::style::render::{plain, profile_of, render_core, render_text};
use crate::style::frame::{bordered, draws_border, edge_sgrs, with_border, with_margins, margin_token};
use crate::border::border_parts;
use crate::style::sgr::style_sgr;
use crate::style::stages::{body, content_of, crlf, max_done, pad_of, prepared, tabs_done, wrapped};
use crate::join::blank_lines;

verus! {

broadcast use group_style_bits;

proof fn lemma_concat_append(a: Seq<Seq<char>>, b: Seq<Seq<char>>)
    ensures
        concat(a + b) == concat(a) + concat(b),
    decreases b.len(),
{
    if b.len() == 0 {
        assert(a + b =~= a);
        assert(concat(a) + concat(b) =~= concat(a));
    } else {
        lemma_concat_append(a, b.drop_last());
        assert((a + b).drop_last() =~= a + b.drop_last());
        assert(concat(a) + concat(b) =~= concat(a) + concat(b.drop_last()) + b.last());
    }
}

proof fn lemma_tokens_from_concat(s: Seq<char>, brk: Seq<char>, i: int, toks: Seq<Seq<char>>, cur: Seq<char>)
    requires
        0 <= i <= s.len(),
        concat(toks) + cur == s.take(i),
    ensures
        concat(tokens_from(s, brk, i, toks, cur)) == s,
    decreases s.len() - i,
{
    if i >= s.len() {
        assert(s.take(i) =~= s);
        if cur.len() > 0 {
            lemma_concat_push(toks, cur);
        } else {
            assert(concat(toks) + cur =~= concat(toks));
        }
    } else if s[i] == '\u{1b}' {
        let n = esc_scan(s, i + 1, 0);
        lemma_esc_scan_bound(s, i + 1, 0);
        assert(s.take(i + 1 + n) =~= s.take(i) + s.subrange(i, i + 1 + n));
        assert(concat(toks) + (cur + s.subrange(i, i + 1 + n)) =~= (concat(toks) + cur) + s.subrange(i, i + 1 + n));
        lemma_tokens_from_concat(s, brk, i + 1 + n, toks, cur + s.subrange(i, i + 1 + n));
    } else if brk.contains(s[i]) {
        let t = if cur.len() > 0 { toks.push(cur) } else { toks };
        if cur.len() > 0 {
            lemma_concat_push(toks, cur);
        } else {
            assert(concat(toks) + cur =~= concat(toks));
        }
        lemma_concat_push(t, seq![s[i]]);
        assert(concat(t) == s.take(i));
        assert(s.take(i + 1) =~= s.take(i) + seq![s[i]]);
        assert(concat(t.push(seq![s[i]])) + Seq::<char>::empty() =~= s.take(i + 1));
        lemma_tokens_from_concat(s, brk, i + 1, t.push(seq![s[i]]), Seq::<char>::empty());
    } else {
        assert(s.take(i + 1) =~= s.take(i).push(s[i]));
        assert(concat(toks) + cur.push(s[i]) =~= (concat(toks) + cur).push(s[i]));
        lemma_tokens_from_concat(s, brk, i + 1, toks, cur.push(s[i]));
    }
}

/// Splitting into tokens loses nothing: the tokens put back together are
/// the text.
pub proof fn law_tokens_concat(s: Seq<char>, brk: Seq<char>)
    ensures
        concat(tokens(s, brk)) == s,
{
    assert(concat(Seq::<Seq<char>>::empty()) + Seq::<char>::empty() =~= s.take(0));
    lemma_tokens_from_concat(s, brk, 0, Seq::<Seq<char>>::empty(), Seq::<char>::empty());
}

proof fn lemma_hard_wrap_from_concat(
    s: Seq<char>,
    width: nat,
    i: int,
    lines: Seq<Seq<char>>,
    cur: Seq<char>,
    w: nat,
)
    requires
        0 <= i <= s.len(),
        concat(lines) + cur == s.take(i),
    ensures
        concat(hard_wrap_from(s, width, i, lines, cur, w)) == s,
    decreases s.len() - i,
{
    if i >= s.len() {
        assert(s.take(i) =~= s);
        if cur.len() > 0 {
            lemma_concat_push(lines, cur);
        } else {
            assert(concat(lines) + cur =~= concat(lines));
            if lines.len() == 0 {
                assert(concat(seq![Seq::<char>::empty()]) =~= concat(Seq::<Seq<char>>::empty().push(Seq::<char>::empty())));
                lemma_concat_push(Seq::<Seq<char>>::empty(), Seq::<char>::empty());
            }
        }
    } else if s[i] == '\u{1b}' {
        let n = esc_scan(s, i + 1, 0);
        lemma_esc_scan_bound(s, i + 1, 0);
        assert(s.take(i + 1 + n) =~= s.take(i) + s.subrange(i, i + 1 + n));
        assert(concat(lines) + (cur + s.subrange(i, i + 1 + n)) =~= (concat(lines) + cur) + s.subrange(i, i + 1 + n));
        lemma_hard_wrap_from_concat(s, width, i + 1 + n, lines, cur + s.subrange(i, i + 1 + n), w);
    } else if w + crate::style::wrap::cell_width(s[i]) > width && w > 0 {
        lemma_concat_push(lines, cur);
        assert(s.take(i + 1) =~= s.take(i) + seq![s[i]]);
        assert(concat(lines.push(cur)) + seq![s[i]] =~= s.take(i + 1));
        lemma_hard_wrap_from_concat(s, width, i + 1, lines.push(cur), seq![s[i]], crate::style::wrap::cell_width(s[i]));
    } else {
        assert(s.take(i + 1) =~= s.take(i).push(s[i]));
        assert(concat(lines) + cur.push(s[i]) =~= (concat(lines) + cur).push(s[i]));
        lemma_hard_wrap_from_concat(s, width, i + 1, lines, cur.push(s[i]), w + crate::style::wrap::cell_width(s[i]));
    }
}

/// Hard wrapping loses nothing: the lines put back together are the text
/// (for a width of at least one cell).
pub proof fn law_hard_wrap_concat(s: Seq<char>, width: nat)
    requires
        width > 0,
    ensures
        concat(hard_wrap(s, width)) == s,
{
    assert(concat(Seq::<Seq<char>>::empty()) + Seq::<char>::empty() =~= s.take(0));
    lemma_hard_wrap_from_concat(s, width, 0, Seq::<Seq<char>>::empty(), Seq::<char>::empty(), 0);
}

proof fn lemma_truncate_from_prefix(s: Seq<char>, maxw: nat, i: int, w: nat, out: Seq<char>)
    requires
        0 <= i <= s.len(),
        out == s.take(i),
    ensures
        truncate_from(s, maxw, i, w, out).len() <= s.len(),
        truncate_from(s, maxw, i, w, out) == s.take(truncate_from(s, maxw, i, w, out).len() as int),
    decreases s.len() - i,
{
    if i >= s.len() {
    } else if s[i] == '\u{1b}' {
        let n = esc_scan(s, i + 1, 0);
        lemma_esc_scan_bound(s, i + 1, 0);
        assert(out + s.subrange(i, i + 1 + n) =~= s.take(i + 1 + n));
        lemma_truncate_from_prefix(s, maxw, i + 1 + n, w, out + s.subrange(i, i + 1 + n));
    } else if w + crate::style::wrap::cell_width(s[i]) > maxw {
    } else {
        assert(out.push(s[i]) =~= s.take(i + 1));
        lemma_truncate_from_prefix(s, maxw, i + 1, w + crate::style::wrap::cell_width(s[i]), out.push(s[i]));
    }
}

/// Truncating a line keeps a prefix of it: nothing is added or reordered.
pub proof fn law_truncate_is_prefix(s: Seq<char>, maxw: nat)
    ensures
        truncate_line(s, maxw).len() <= s.len(),
        truncate_line(s, maxw) == s.take(truncate_line(s, maxw).len() as int),
{
    if maxw > 0 {
        assert(Seq::<char>::empty() =~= s.take(0));
        lemma_truncate_from_prefix(s, maxw, 0, 0, Seq::<char>::empty());
    } else {
        assert(s.take(0) =~= Seq::<char>::empty());
    }
}


/// Cutting a text to `n` lines keeps a prefix of it: the whole text when it
/// has at most `n` lines, else its first `n` lines (none at all for `n` of
/// zero), so at most `n - 1` newlines remain.
pub proof fn law_first_lines(s: Seq<char>, n: nat)
    ensures
        first_lines(s, n).len() <= s.len(),
        s.take(first_lines(s, n).len() as int) == first_lines(s, n),
        count_newlines(s) < n ==> first_lines(s, n) == s,
        n >= 1 ==> count_newlines(first_lines(s, n)) == if count_newlines(s) < n { count_newlines(s) } else { (n - 1) as nat },
        n == 0 ==> first_lines(s, n).len() == 0,
{
    let ls = split_lines(s);
    lemma_split_lines_len(s);
    lemma_join_split(s);
    lemma_split_lines_no_newline(s);
    if ls.len() <= n {
        assert(s.take(s.len() as int) =~= s);
    } else {
        lemma_join_take_prefix(ls, n as int);
        if n >= 1 {
            let kept = ls.take(n as int);
            assert forall|i: int, j: int| 0 <= i < kept.len() && 0 <= j < kept[i].len() implies #[trigger] kept[i][j] != '\n' by {
                assert(kept[i] == ls[i]);
                assert(ls[i][j] != '\n');
            }
            lemma_join_count_newlines(kept);
        } else {
            assert(ls.take(0) =~= Seq::<Seq<char>>::empty());
        }
    }
}


/// `s` with every space removed.
pub open spec fn without_spaces(s: Seq<char>) -> Seq<char>
    decreases s.len(),
{
    if s.len() == 0 {
        s
    } else if s.last() == ' ' {
        without_spaces(s.drop_last())
    } else {
        without_spaces(s.drop_last()).push(s.last())
    }
}

proof fn lemma_without_spaces_append(a: Seq<char>, b: Seq<char>)
    ensures
        without_spaces(a + b) == without_spaces(a) + without_spaces(b),
    decreases b.len(),
{
    if b.len() == 0 {
        assert(a + b =~= a);
        assert(without_spaces(b) =~= Seq::<char>::empty());
        assert(without_spaces(a) + without_spaces(b) =~= without_spaces(a));
    } else {
        lemma_without_spaces_append(a, b.drop_last());
        assert((a + b).drop_last() =~= a + b.drop_last());
        assert((a + b).last() == b.last());
        if b.last() != ' ' {
            assert(without_spaces(a) + without_spaces(b) =~= (without_spaces(a) + without_spaces(b.drop_last())).push(b.last()));
        }
    }
}

proof fn lemma_concat_prepend(t: Seq<char>, rest: Seq<Seq<char>>)
    ensures
        concat(seq![t] + rest) == t + concat(rest),
{
    lemma_concat_append(seq![t], rest);
    assert(seq![t].drop_last() =~= Seq::<Seq<char>>::empty());
    assert(concat(seq![t].drop_last()) =~= Seq::<char>::empty());
    assert(concat(seq![t]) =~= t);
}

#[verifier::rlimit(60)]
proof fn lemma_word_wrap_from_keeps(
    toks: Seq<Seq<char>>,
    width: nat,
    j: int,
    lines: Seq<Seq<char>>,
    cur: Seq<char>,
    w: nat,
)
    requires
        width > 0,
        0 <= j <= toks.len(),
    ensures
        without_spaces(concat(word_wrap_from(toks, width, j, lines, cur, w))) == without_spaces(
            concat(lines) + cur + concat(toks.subrange(j, toks.len() as int)),
        ),
    decreases toks.len() - j,
{
    let rest = toks.subrange(j, toks.len() as int);
    if j >= toks.len() {
        assert(rest =~= Seq::<Seq<char>>::empty());
        assert(concat(lines) + cur + concat(rest) =~= concat(lines) + cur);
        if cur.len() > 0 {
            lemma_concat_push(lines, cur);
        } else {
            assert(concat(lines) + cur =~= concat(lines));
            if lines.len() == 0 {
                assert(concat(seq![Seq::<char>::empty()]) =~= Seq::<char>::empty()) by {
                    lemma_concat_push(Seq::<Seq<char>>::empty(), Seq::<char>::empty());
                }
            }
        }
    } else {
        let t = toks[j];
        let next = toks.subrange(j + 1, toks.len() as int);
        assert(rest =~= seq![t] + next);
        lemma_concat_prepend(t, next);
        let cn = concat(next);
        let tw = visible_width(t);
        if t == seq![' '] {
            assert(without_spaces(t) =~= Seq::<char>::empty()) by {
                assert(t.drop_last() =~= Seq::<char>::empty());
                assert(t.last() == ' ');
                assert(without_spaces(t.drop_last()) =~= Seq::<char>::empty());
            }
            lemma_without_spaces_append(concat(lines) + cur, t + cn);
            lemma_without_spaces_append(t, cn);
            lemma_without_spaces_append(concat(lines) + cur, cn);
            if w > 0 && w < width {
                lemma_word_wrap_from_keeps(toks, width, j + 1, lines, cur.push(' '), w + 1);
                lemma_without_spaces_append(concat(lines) + cur, seq![' ']);
                assert(concat(lines) + cur.push(' ') + cn =~= (concat(lines) + cur + seq![' ']) + cn);
                lemma_without_spaces_append(concat(lines) + cur + seq![' '], cn);
                assert(without_spaces(seq![' ']) =~= Seq::<char>::empty()) by {
                    assert(seq![' '].drop_last() =~= Seq::<char>::empty());
                    assert(without_spaces(seq![' '].drop_last()) =~= Seq::<char>::empty());
                }
                assert(concat(lines) + cur + seq![' '] =~= concat(lines) + cur.push(' '));
            } else {
                lemma_word_wrap_from_keeps(toks, width, j + 1, lines, cur, w);
            }
            assert(concat(lines) + cur + concat(rest) =~= (concat(lines) + cur) + (t + cn));
        } else {
            let flush = w + tw > width && w > 0;
            let l1 = if flush { lines.push(cur) } else { lines };
            let c1 = if flush { Seq::<char>::empty() } else { cur };
            let w1: nat = if flush { 0 } else { w };
            assert(concat(l1) + c1 == concat(lines) + cur) by {
                if flush {
                    lemma_concat_push(lines, cur);
                    assert(concat(l1) + c1 =~= concat(lines) + cur);
                }
            }
            assert(concat(lines) + cur + concat(rest) =~= (concat(l1) + c1) + t + cn);
            if tw > width {
                let l2 = if c1.len() > 0 { l1.push(c1) } else { l1 };
                let c2 = if c1.len() > 0 { Seq::<char>::empty() } else { c1 };
                assert(concat(l2) + c2 == concat(l1) + c1) by {
                    if c1.len() > 0 {
                        lemma_concat_push(l1, c1);
                        assert(concat(l2) + c2 =~= concat(l1) + c1);
                    }
                }
                let wrapped = hard_wrap(t, width);
                law_hard_wrap_concat(t, width);
                if wrapped.len() > 0 {
                    let l3 = l2 + wrapped.drop_last();
                    lemma_word_wrap_from_keeps(toks, width, j + 1, l3, wrapped.last(), visible_width(wrapped.last()));
                    lemma_concat_append(l2, wrapped.drop_last());
                    lemma_concat_push(wrapped.drop_last(), wrapped.last());
                    assert(wrapped.drop_last().push(wrapped.last()) =~= wrapped);
                    assert(concat(l3) + wrapped.last() + cn =~= (concat(l2) + c2) + t + cn);
                } else {
                    lemma_word_wrap_from_keeps(toks, width, j + 1, l2, c2, w1);
                    assert(t =~= Seq::<char>::empty());
                    assert(concat(l2) + c2 + cn =~= (concat(l2) + c2) + t + cn);
                }
            } else {
                lemma_word_wrap_from_keeps(toks, width, j + 1, l1, c1 + t, w1 + tw);
                assert(concat(l1) + (c1 + t) + cn =~= (concat(l1) + c1) + t + cn);
            }
        }
    }
}


proof fn lemma_word_wrap_from_nonempty(
    toks: Seq<Seq<char>>,
    width: nat,
    j: int,
    lines: Seq<Seq<char>>,
    cur: Seq<char>,
    w: nat,
)
    ensures
        word_wrap_from(toks, width, j, lines, cur, w).len() >= 1,
    decreases toks.len() - j,
{
    if j < toks.len() && j >= 0 {
        let t = toks[j];
        let tw = visible_width(t);
        if t == seq![' '] {
            lemma_word_wrap_from_nonempty(toks, width, j + 1, lines, cur.push(' '), w + 1);
            lemma_word_wrap_from_nonempty(toks, width, j + 1, lines, cur, w);
        } else {
            let flush = w + tw > width && w > 0;
            let l1 = if flush { lines.push(cur) } else { lines };
            let c1 = if flush { Seq::<char>::empty() } else { cur };
            let w1: nat = if flush { 0 } else { w };
            if tw > width {
                let l2 = if c1.len() > 0 { l1.push(c1) } else { l1 };
                let c2 = if c1.len() > 0 { Seq::<char>::empty() } else { c1 };
                let wrapped = hard_wrap(t, width);
                if wrapped.len() > 0 {
                    lemma_word_wrap_from_nonempty(
                        toks,
                        width,
                        j + 1,
                        l2 + wrapped.drop_last(),
                        wrapped.last(),
                        visible_width(wrapped.last()),
                    );
                } else {
                    lemma_word_wrap_from_nonempty(toks, width, j + 1, l2, c2, w1);
                }
            } else {
                lemma_word_wrap_from_nonempty(toks, width, j + 1, l1, c1 + t, w1 + tw);
            }
        }
    }
}

/// Word wrapping always gives at least one line (an empty one for empty
/// text).
pub proof fn law_word_wrap_nonempty(text: Seq<char>, width: nat)
    ensures
        word_wrap(text, width).len() >= 1,
{
    if width > 0 {
        lemma_word_wrap_from_nonempty(tokens(text, seq![' ']), width, 0, Seq::<Seq<char>>::empty(), Seq::<char>::empty(), 0);
    }
}

/// Word wrapping loses nothing but spaces: the wrapped lines, put back
/// together, hold the text's other characters (escape sequences included)
/// in order.
pub proof fn law_word_wrap_keeps_text(text: Seq<char>, width: nat)
    requires
        width > 0,
    ensures
        without_spaces(concat(word_wrap(text, width))) == without_spaces(text),
{
    let toks = tokens(text, seq![' ']);
    lemma_word_wrap_from_keeps(toks, width, 0, Seq::<Seq<char>>::empty(), Seq::<char>::empty(), 0);
    law_tokens_concat(text, seq![' ']);
    assert(toks.subrange(0, toks.len() as int) =~= toks);
    assert(concat(Seq::<Seq<char>>::empty()) + Seq::<char>::empty() + concat(toks) =~= concat(toks));
}

/// Normalising line endings leaves no carriage return.
pub proof fn law_crlf_no_cr(s: Seq<char>)
    ensures
        forall|i: int| 0 <= i < crlf(s).len() ==> crlf(s)[i] != '\r',
    decreases s.len(),
{
    if s.len() > 0 {
        law_crlf_no_cr(s.drop_first());
        let r = crlf(s.drop_first());
        if s[0] == '\r' {
            if !(s.len() > 1 && s[1] == '\n') {
                assert forall|i: int| 0 <= i < crlf(s).len() implies crlf(s)[i] != '\r' by {
                    if i > 0 {
                        assert(crlf(s)[i] == r[i - 1]);
                    }
                }
            }
        } else {
            assert forall|i: int| 0 <= i < crlf(s).len() implies crlf(s)[i] != '\r' by {
                if i > 0 {
                    assert(crlf(s)[i] == r[i - 1]);
                }
            }
        }
    }
}

/// Text without carriage returns is left as it is by line-ending
/// normalisation.
pub proof fn law_crlf_identity(s: Seq<char>)
    requires
        forall|i: int| 0 <= i < s.len() ==> s[i] != '\r',
    ensures
        crlf(s) == s,
    decreases s.len(),
{
    if s.len() > 0 {
        assert(s[0] != '\r');
        law_crlf_identity(s.drop_first());
        assert(seq![s[0]] + s.drop_first() =~= s);
    } else {
        assert(crlf(s) =~= s);
    }
}

/// Replacing a character that does not occur changes nothing.
pub proof fn law_replace_absent(s: Seq<char>, c: char, r: Seq<char>)
    requires
        !s.contains(c),
    ensures
        replace_char(s, c, r) == s,
    decreases s.len(),
{
    if s.len() > 0 {
        assert(!s.drop_last().contains(c)) by {
            if s.drop_last().contains(c) {
                let k = choose|k: int| 0 <= k < s.drop_last().len() && s.drop_last()[k] == c;
                assert(s[k] == c);
            }
        }
        law_replace_absent(s.drop_last(), c, r);
        assert(s.last() != c) by {
            assert(s[s.len() - 1] == s.last());
        }
        assert(s.drop_last().push(s.last()) =~= s);
    } else {
        assert(replace_char(s, c, r) =~= s);
    }
}

// ---------------------------------------------------------------------
// Properties
// ---------------------------------------------------------------------

/// Setting a boolean property makes it read back as the value given, and
/// leaves every other property key and stored attribute as it was.
pub proof fn law_flag_set<T>(s: Style<T>, k: u64, a: u32, v: bool)
    requires
        k < 64,
        a < 32,
    ensures
        (Style { props: with_bit64(s.props, k), attrs: put_bit32(s.attrs, a, v), ..s }).flag(k, a) == v,
        forall|j: u64|
            j < 64 && j != k ==> #[trigger] (Style { props: with_bit64(s.props, k), attrs: put_bit32(s.attrs, a, v), ..s }).has(j)
                == s.has(j),
        forall|b: u32|
            b < 32 && b != a ==> #[trigger] (Style { props: with_bit64(s.props, k), attrs: put_bit32(s.attrs, a, v), ..s }).attr(b)
                == s.attr(b),
{
}

/// Forgetting a boolean property makes it read back as false and unset,
/// and leaves every other property key and stored attribute as it was.
pub proof fn law_flag_unset<T>(s: Style<T>, k: u64, a: u32)
    requires
        k < 64,
        a < 32,
    ensures
        !(Style { props: without_bit64(s.props, k), attrs: put_bit32(s.attrs, a, false), ..s }).flag(k, a),
        !(Style { props: without_bit64(s.props, k), attrs: put_bit32(s.attrs, a, false), ..s }).has(k),
        forall|j: u64|
            j < 64 && j != k ==> #[trigger] (Style { props: without_bit64(s.props, k), attrs: put_bit32(s.attrs, a, false), ..s }).has(j)
                == s.has(j),
{
}


/// Removing a border side leaves it undrawn and every other side as it
/// was.
pub proof fn law_unset_border_side<T>(s: Style<T>, k: u64, a: u32, j: u64, b: u32)
    requires
        k < 64 && a < 32 && j < 64 && b < 32,
        j != k && b != a,
    ensures
        !(Style { props: without_bit64(s.props, k), attrs: put_bit32(s.attrs, a, false), ..s }).side(k, a),
        (Style { props: without_bit64(s.props, k), attrs: put_bit32(s.attrs, a, false), ..s }).side(j, b) == s.side(j, b),
{
}

/// Setting the width makes it read back clamped into `0..=MAX_DIMENSION`.
pub proof fn law_width_set<T>(s: Style<T>, w: i32)
    ensures
        (Style { width: clamp_dimension(w as int) as i32, props: with_bit64(s.props, WIDTH_KEY), ..s }).dim(
            WIDTH_KEY,
            clamp_dimension(w as int) as i32,
        ) == clamp_dimension(w as int),
{
}


/// Every size, padding, margin and tab-width setter keeps a well-formed
/// style well formed, so a style built by the builders can always be
/// rendered.
pub proof fn law_setters_keep_wf<T>(s: Style<T>, v: i32)
    requires
        s.wf(),
    ensures
        (Style { width: clamp_dimension(v as int) as i32, props: with_bit64(s.props, WIDTH_KEY), ..s }).wf(),
        (Style { height: clamp_dimension(v as int) as i32, props: with_bit64(s.props, HEIGHT_KEY), ..s }).wf(),
        (Style { max_width: clamp_dimension(v as int) as i32, props: with_bit64(s.props, MAX_WIDTH_KEY), ..s }).wf(),
        (Style { max_height: clamp_dimension(v as int) as i32, props: with_bit64(s.props, MAX_HEIGHT_KEY), ..s }).wf(),
        (Style { padding_top: clamp_dimension(v as int) as i32, props: with_bit64(s.props, PADDING_TOP_KEY), ..s }).wf(),
        (Style { padding_right: clamp_dimension(v as int) as i32, props: with_bit64(s.props, PADDING_RIGHT_KEY), ..s }).wf(),
        (Style { padding_bottom: clamp_dimension(v as int) as i32, props: with_bit64(s.props, PADDING_BOTTOM_KEY), ..s }).wf(),
        (Style { padding_left: clamp_dimension(v as int) as i32, props: with_bit64(s.props, PADDING_LEFT_KEY), ..s }).wf(),
        (Style { margin_top: clamp_dimension(v as int) as i32, props: with_bit64(s.props, MARGIN_TOP_KEY), ..s }).wf(),
        (Style { margin_right: clamp_dimension(v as int) as i32, props: with_bit64(s.props, MARGIN_RIGHT_KEY), ..s }).wf(),
        (Style { margin_bottom: clamp_dimension(v as int) as i32, props: with_bit64(s.props, MARGIN_BOTTOM_KEY), ..s }).wf(),
        (Style { margin_left: clamp_dimension(v as int) as i32, props: with_bit64(s.props, MARGIN_LEFT_KEY), ..s }).wf(),
        (Style { tab_width: clamp_tab_width(v as int) as i32, props: with_bit64(s.props, TAB_WIDTH_KEY), ..s }).wf(),
{
}

/// A style renders alike to itself unless it holds a transformation, and
/// rendering alike is symmetric.
pub proof fn law_equivalent<T, U>(a: Style<T>, b: Style<U>)
    ensures
        a.transform is None ==> equivalent(a, a),
        equivalent(a, b) == equivalent(b, a),
{
}

proof fn lemma_take_key_props<T>(s: Style<T>, o: Style<T>, k: u64, j: u64)
    requires
        inherit_keys().contains(k),
        j < 64,
    ensures
        take_key(s, o, k).has(j) == (j == k || s.has(j)),
        take_key(s, o, k).padding_top == s.padding_top && take_key(s, o, k).padding_right == s.padding_right,
        take_key(s, o, k).padding_bottom == s.padding_bottom && take_key(s, o, k).padding_left == s.padding_left,
        take_key(s, o, k).margin_top == s.margin_top && take_key(s, o, k).margin_right == s.margin_right,
        take_key(s, o, k).margin_bottom == s.margin_bottom && take_key(s, o, k).margin_left == s.margin_left,
{
}

/// Whether `j` is among the first `n` keys `inherit` looks at.
pub open spec fn seen_key(n: nat, j: u64) -> bool {
    inherit_keys().take(n as int).contains(j)
}

proof fn lemma_inherit_upto<T>(s: Style<T>, o: Style<T>, n: nat)
    requires
        n <= inherit_keys().len(),
    ensures
        forall|j: u64|
            j < 64 && j != crate::style::keys::MARGIN_BACKGROUND_KEY ==> #[trigger] inherit_upto(s, o, n).has(j)
                == (s.has(j) || (o.has(j) && seen_key(n, j))),
        inherit_upto(s, o, n).padding_top == s.padding_top && inherit_upto(s, o, n).padding_right == s.padding_right,
        inherit_upto(s, o, n).padding_bottom == s.padding_bottom && inherit_upto(s, o, n).padding_left
            == s.padding_left,
        inherit_upto(s, o, n).margin_top == s.margin_top && inherit_upto(s, o, n).margin_right == s.margin_right,
        inherit_upto(s, o, n).margin_bottom == s.margin_bottom && inherit_upto(s, o, n).margin_left
            == s.margin_left,
    decreases n,
{
    if n == 0 {
        assert forall|j: u64| j < 64 implies !seen_key(0, j) by {
            assert(inherit_keys().take(0) =~= Seq::<u64>::empty());
        }
    } else {
        lemma_inherit_upto(s, o, (n - 1) as nat);
        let t = inherit_upto(s, o, (n - 1) as nat);
        let k = inherit_keys()[n - 1];
        assert(inherit_keys().contains(k));
        assert(k < 64);
        assert(inherit_keys().take(n as int) =~= inherit_keys().take(n - 1).push(k));
        let t1 = if k == crate::style::keys::BACKGROUND_KEY && !t.has(crate::style::keys::MARGIN_BACKGROUND_KEY)
            && !o.has(crate::style::keys::MARGIN_BACKGROUND_KEY) && o.bg_color is Some {
            Style {
                margin_bg_color: o.bg_color,
                props: with_bit64(t.props, crate::style::keys::MARGIN_BACKGROUND_KEY),
                ..t
            }
        } else {
            t
        };
        assert forall|j: u64|
            j < 64 && j != crate::style::keys::MARGIN_BACKGROUND_KEY implies #[trigger] inherit_upto(s, o, n).has(j)
                == (s.has(j) || (o.has(j) && seen_key(n, j))) by {
            let prev = inherit_keys().take(n - 1);
            assert(seen_key(n, j) == (seen_key((n - 1) as nat, j) || j == k)) by {
                if prev.push(k).contains(j) {
                    let i = choose|i: int| 0 <= i < prev.push(k).len() && prev.push(k)[i] == j;
                    if i < prev.len() {
                        assert(prev[i] == j);
                    }
                }
                if prev.contains(j) {
                    let i = choose|i: int| 0 <= i < prev.len() && prev[i] == j;
                    assert(prev.push(k)[i] == j);
                }
                if j == k {
                    assert(prev.push(k)[prev.len() as int] == j);
                }
            }
            assert(t1.has(j) == t.has(j));
            if o.has(k) && !t1.has(k) {
                lemma_take_key_props(t1, o, k, j);
            }
        }
        if o.has(k) && !t1.has(k) {
            lemma_take_key_props(t1, o, k, 0);
        }
    }
}


/// Every property `s` sets still holds its value in `t`, and `t` sets
/// every key `s` sets.
pub open spec fn keeps_set<T>(s: Style<T>, t: Style<T>) -> bool {
    &&& forall|j: u64| j < 64 && #[trigger] s.has(j) ==> t.has(j)
    &&& s.has(BOLD_KEY) ==> t.attr(ATTR_BOLD) == s.attr(ATTR_BOLD)
    &&& s.has(ITALIC_KEY) ==> t.attr(ATTR_ITALIC) == s.attr(ATTR_ITALIC)
    &&& s.has(UNDERLINE_KEY) ==> t.attr(ATTR_UNDERLINE) == s.attr(ATTR_UNDERLINE)
    &&& s.has(STRIKETHROUGH_KEY) ==> t.attr(ATTR_STRIKETHROUGH) == s.attr(ATTR_STRIKETHROUGH)
    &&& s.has(REVERSE_KEY) ==> t.attr(ATTR_REVERSE) == s.attr(ATTR_REVERSE)
    &&& s.has(BLINK_KEY) ==> t.attr(ATTR_BLINK) == s.attr(ATTR_BLINK)
    &&& s.has(FAINT_KEY) ==> t.attr(ATTR_FAINT) == s.attr(ATTR_FAINT)
    &&& s.has(UNDERLINE_SPACES_KEY) ==> t.attr(ATTR_UNDERLINE_SPACES) == s.attr(ATTR_UNDERLINE_SPACES)
    &&& s.has(STRIKETHROUGH_SPACES_KEY) ==> t.attr(ATTR_STRIKETHROUGH_SPACES) == s.attr(ATTR_STRIKETHROUGH_SPACES)
    &&& s.has(COLOR_WHITESPACE_KEY) ==> t.attr(ATTR_COLOR_WHITESPACE) == s.attr(ATTR_COLOR_WHITESPACE)
    &&& s.has(INLINE_KEY) ==> t.attr(ATTR_INLINE) == s.attr(ATTR_INLINE)
    &&& s.has(BORDER_TOP_KEY) ==> t.attr(ATTR_BORDER_TOP) == s.attr(ATTR_BORDER_TOP)
    &&& s.has(BORDER_RIGHT_KEY) ==> t.attr(ATTR_BORDER_RIGHT) == s.attr(ATTR_BORDER_RIGHT)
    &&& s.has(BORDER_BOTTOM_KEY) ==> t.attr(ATTR_BORDER_BOTTOM) == s.attr(ATTR_BORDER_BOTTOM)
    &&& s.has(BORDER_LEFT_KEY) ==> t.attr(ATTR_BORDER_LEFT) == s.attr(ATTR_BORDER_LEFT)
    &&& s.has(FOREGROUND_KEY) ==> t.fg_color == s.fg_color
    &&& s.has(BACKGROUND_KEY) ==> t.bg_color == s.bg_color
    &&& s.has(WIDTH_KEY) ==> t.width == s.width
    &&& s.has(HEIGHT_KEY) ==> t.height == s.height
    &&& s.has(MAX_WIDTH_KEY) ==> t.max_width == s.max_width
    &&& s.has(MAX_HEIGHT_KEY) ==> t.max_height == s.max_height
    &&& s.has(ALIGN_HORIZONTAL_KEY) ==> t.align_horizontal == s.align_horizontal
    &&& s.has(ALIGN_VERTICAL_KEY) ==> t.align_vertical == s.align_vertical
    &&& s.has(BORDER_STYLE_KEY) ==> t.border_style == s.border_style
    &&& s.has(BORDER_TOP_FOREGROUND_KEY) ==> t.border_top_fg_color == s.border_top_fg_color
    &&& s.has(BORDER_RIGHT_FOREGROUND_KEY) ==> t.border_right_fg_color == s.border_right_fg_color
    &&& s.has(BORDER_BOTTOM_FOREGROUND_KEY) ==> t.border_bottom_fg_color == s.border_bottom_fg_color
    &&& s.has(BORDER_LEFT_FOREGROUND_KEY) ==> t.border_left_fg_color == s.border_left_fg_color
    &&& s.has(BORDER_TOP_BACKGROUND_KEY) ==> t.border_top_bg_color == s.border_top_bg_color
    &&& s.has(BORDER_RIGHT_BACKGROUND_KEY) ==> t.border_right_bg_color == s.border_right_bg_color
    &&& s.has(BORDER_BOTTOM_BACKGROUND_KEY) ==> t.border_bottom_bg_color == s.border_bottom_bg_color
    &&& s.has(BORDER_LEFT_BACKGROUND_KEY) ==> t.border_left_bg_color == s.border_left_bg_color
    &&& s.has(TAB_WIDTH_KEY) ==> t.tab_width == s.tab_width
    &&& s.has(TRANSFORM_KEY) ==> t.transform == s.transform
}

#[verifier::rlimit(50)]
proof fn lemma_step_keeps_set<T>(s: Style<T>, t: Style<T>, o: Style<T>, k: u64)
    requires
        keeps_set(s, t),
        inherit_keys().contains(k),
    ensures
        keeps_set(s, inherit_step(t, o, k)),
{
    assert(k < 64);
    if o.has(k) {
        let t1 = if k == BACKGROUND_KEY && !t.has(crate::style::keys::MARGIN_BACKGROUND_KEY)
            && !o.has(crate::style::keys::MARGIN_BACKGROUND_KEY) && o.bg_color is Some {
            Style { margin_bg_color: o.bg_color, props: with_bit64(t.props, crate::style::keys::MARGIN_BACKGROUND_KEY), ..t }
        } else {
            t
        };
        assert(keeps_set(s, t1));
        if !t1.has(k) {
            assert forall|j: u64| j < 64 && #[trigger] s.has(j) implies take_key(t1, o, k).has(j) by {
                lemma_take_key_props(t1, o, k, j);
            }
            assert(!s.has(k));
        }
    }
}

proof fn lemma_inherit_upto_keeps_set<T>(s: Style<T>, o: Style<T>, n: nat)
    requires
        n <= inherit_keys().len(),
    ensures
        keeps_set(s, inherit_upto(s, o, n)),
    decreases n,
{
    if n > 0 {
        lemma_inherit_upto_keeps_set(s, o, (n - 1) as nat);
        let k = inherit_keys()[n - 1];
        assert(inherit_keys().contains(k));
        lemma_step_keeps_set(s, inherit_upto(s, o, (n - 1) as nat), o, k);
    }
}

/// `inherit` never overrides a property this style sets: each one it sets
/// keeps its value, the transformation included.
pub proof fn law_inherit_keeps_set<T>(s: Style<T>, o: Style<T>)
    ensures
        keeps_set(s, inherited(s, o)),
{
    lemma_inherit_upto_keeps_set(s, o, inherit_keys().len());
    let t = inherit_upto(s, o, inherit_keys().len());
    if o.has(TRANSFORM_KEY) && !t.has(TRANSFORM_KEY) {
        assert(TRANSFORM_KEY < 64);
        assert(!s.has(TRANSFORM_KEY));
    }
}

/// Every property that `s` leaves unset and `t` sets holds `o`'s value in
/// `t`.
pub open spec fn takes_unset<T>(s: Style<T>, o: Style<T>, t: Style<T>) -> bool {
    &&& !s.has(BOLD_KEY) && t.has(BOLD_KEY) ==> t.attr(ATTR_BOLD) == o.attr(ATTR_BOLD)
    &&& !s.has(ITALIC_KEY) && t.has(ITALIC_KEY) ==> t.attr(ATTR_ITALIC) == o.attr(ATTR_ITALIC)
    &&& !s.has(UNDERLINE_KEY) && t.has(UNDERLINE_KEY) ==> t.attr(ATTR_UNDERLINE) == o.attr(ATTR_UNDERLINE)
    &&& !s.has(STRIKETHROUGH_KEY) && t.has(STRIKETHROUGH_KEY) ==> t.attr(ATTR_STRIKETHROUGH) == o.attr(ATTR_STRIKETHROUGH)
    &&& !s.has(REVERSE_KEY) && t.has(REVERSE_KEY) ==> t.attr(ATTR_REVERSE) == o.attr(ATTR_REVERSE)
    &&& !s.has(BLINK_KEY) && t.has(BLINK_KEY) ==> t.attr(ATTR_BLINK) == o.attr(ATTR_BLINK)
    &&& !s.has(FAINT_KEY) && t.has(FAINT_KEY) ==> t.attr(ATTR_FAINT) == o.attr(ATTR_FAINT)
    &&& !s.has(UNDERLINE_SPACES_KEY) && t.has(UNDERLINE_SPACES_KEY) ==> t.attr(ATTR_UNDERLINE_SPACES) == o.attr(ATTR_UNDERLINE_SPACES)
    &&& !s.has(STRIKETHROUGH_SPACES_KEY) && t.has(STRIKETHROUGH_SPACES_KEY) ==> t.attr(ATTR_STRIKETHROUGH_SPACES) == o.attr(ATTR_STRIKETHROUGH_SPACES)
    &&& !s.has(COLOR_WHITESPACE_KEY) && t.has(COLOR_WHITESPACE_KEY) ==> t.attr(ATTR_COLOR_WHITESPACE) == o.attr(ATTR_COLOR_WHITESPACE)
    &&& !s.has(INLINE_KEY) && t.has(INLINE_KEY) ==> t.attr(ATTR_INLINE) == o.attr(ATTR_INLINE)
    &&& !s.has(BORDER_TOP_KEY) && t.has(BORDER_TOP_KEY) ==> t.attr(ATTR_BORDER_TOP) == o.attr(ATTR_BORDER_TOP)
    &&& !s.has(BORDER_RIGHT_KEY) && t.has(BORDER_RIGHT_KEY) ==> t.attr(ATTR_BORDER_RIGHT) == o.attr(ATTR_BORDER_RIGHT)
    &&& !s.has(BORDER_BOTTOM_KEY) && t.has(BORDER_BOTTOM_KEY) ==> t.attr(ATTR_BORDER_BOTTOM) == o.attr(ATTR_BORDER_BOTTOM)
    &&& !s.has(BORDER_LEFT_KEY) && t.has(BORDER_LEFT_KEY) ==> t.attr(ATTR_BORDER_LEFT) == o.attr(ATTR_BORDER_LEFT)
    &&& !s.has(FOREGROUND_KEY) && t.has(FOREGROUND_KEY) ==> t.fg_color == o.fg_color
    &&& !s.has(BACKGROUND_KEY) && t.has(BACKGROUND_KEY) ==> t.bg_color == o.bg_color
    &&& !s.has(WIDTH_KEY) && t.has(WIDTH_KEY) ==> t.width == o.width
    &&& !s.has(HEIGHT_KEY) && t.has(HEIGHT_KEY) ==> t.height == o.height
    &&& !s.has(MAX_WIDTH_KEY) && t.has(MAX_WIDTH_KEY) ==> t.max_width == o.max_width
    &&& !s.has(MAX_HEIGHT_KEY) && t.has(MAX_HEIGHT_KEY) ==> t.max_height == o.max_height
    &&& !s.has(ALIGN_HORIZONTAL_KEY) && t.has(ALIGN_HORIZONTAL_KEY) ==> t.align_horizontal == o.align_horizontal
    &&& !s.has(ALIGN_VERTICAL_KEY) && t.has(ALIGN_VERTICAL_KEY) ==> t.align_vertical == o.align_vertical
    &&& !s.has(BORDER_STYLE_KEY) && t.has(BORDER_STYLE_KEY) ==> t.border_style == o.border_style
    &&& !s.has(BORDER_TOP_FOREGROUND_KEY) && t.has(BORDER_TOP_FOREGROUND_KEY) ==> t.border_top_fg_color == o.border_top_fg_color
    &&& !s.has(BORDER_RIGHT_FOREGROUND_KEY) && t.has(BORDER_RIGHT_FOREGROUND_KEY) ==> t.border_right_fg_color == o.border_right_fg_color
    &&& !s.has(BORDER_BOTTOM_FOREGROUND_KEY) && t.has(BORDER_BOTTOM_FOREGROUND_KEY) ==> t.border_bottom_fg_color == o.border_bottom_fg_color
    &&& !s.has(BORDER_LEFT_FOREGROUND_KEY) && t.has(BORDER_LEFT_FOREGROUND_KEY) ==> t.border_left_fg_color == o.border_left_fg_color
    &&& !s.has(BORDER_TOP_BACKGROUND_KEY) && t.has(BORDER_TOP_BACKGROUND_KEY) ==> t.border_top_bg_color == o.border_top_bg_color
    &&& !s.has(BORDER_RIGHT_BACKGROUND_KEY) && t.has(BORDER_RIGHT_BACKGROUND_KEY) ==> t.border_right_bg_color == o.border_right_bg_color
    &&& !s.has(BORDER_BOTTOM_BACKGROUND_KEY) && t.has(BORDER_BOTTOM_BACKGROUND_KEY) ==> t.border_bottom_bg_color == o.border_bottom_bg_color
    &&& !s.has(BORDER_LEFT_BACKGROUND_KEY) && t.has(BORDER_LEFT_BACKGROUND_KEY) ==> t.border_left_bg_color == o.border_left_bg_color
    &&& !s.has(TAB_WIDTH_KEY) && t.has(TAB_WIDTH_KEY) ==> t.tab_width == o.tab_width
    &&& !s.has(TRANSFORM_KEY) && t.has(TRANSFORM_KEY) ==> t.transform == o.transform
}

#[verifier::rlimit(50)]
proof fn lemma_step_takes_unset<T>(s: Style<T>, t: Style<T>, o: Style<T>, k: u64)
    requires
        takes_unset(s, o, t),
        inherit_keys().contains(k),
    ensures
        takes_unset(s, o, inherit_step(t, o, k)),
{
    assert(k < 64);
    if o.has(k) {
        let t1 = if k == BACKGROUND_KEY && !t.has(crate::style::keys::MARGIN_BACKGROUND_KEY)
            && !o.has(crate::style::keys::MARGIN_BACKGROUND_KEY) && o.bg_color is Some {
            Style { margin_bg_color: o.bg_color, props: with_bit64(t.props, crate::style::keys::MARGIN_BACKGROUND_KEY), ..t }
        } else {
            t
        };
        assert(takes_unset(s, o, t1));
        if !t1.has(k) {
            lemma_take_key_props(t1, o, k, k);
        }
    }
}

proof fn lemma_inherit_upto_takes_unset<T>(s: Style<T>, o: Style<T>, n: nat)
    requires
        n <= inherit_keys().len(),
    ensures
        takes_unset(s, o, inherit_upto(s, o, n)),
    decreases n,
{
    if n > 0 {
        lemma_inherit_upto_takes_unset(s, o, (n - 1) as nat);
        let k = inherit_keys()[n - 1];
        assert(inherit_keys().contains(k));
        lemma_step_takes_unset(s, inherit_upto(s, o, (n - 1) as nat), o, k);
    }
}

/// Every property this style leaves unset and the other style sets is
/// taken with the other style's value (the transformation included);
/// together with `law_inherit_keeps_set` and `law_inherit_keys`, each
/// inheritable property ends up as this style's when it sets it, else as
/// the other style's when that sets it, else unset.
pub proof fn law_inherit_takes_unset<T>(s: Style<T>, o: Style<T>)
    ensures
        takes_unset(s, o, inherited(s, o)),
{
    lemma_inherit_upto_takes_unset(s, o, inherit_keys().len());
    let t = inherit_upto(s, o, inherit_keys().len());
    assert(TRANSFORM_KEY < 64);
}

/// `inherit` never takes away a property this style sets, and takes every
/// property it does not set that the other style sets; padding and margins
/// are never taken.
pub proof fn law_inherit_keys<T>(s: Style<T>, o: Style<T>, j: u64)
    requires
        inherit_keys().contains(j) || j == crate::style::keys::TRANSFORM_KEY,
    ensures
        inherited(s, o).has(j) == (s.has(j) || o.has(j)),
        inherited(s, o).padding_top == s.padding_top && inherited(s, o).padding_right == s.padding_right,
        inherited(s, o).padding_bottom == s.padding_bottom && inherited(s, o).padding_left == s.padding_left,
        inherited(s, o).margin_top == s.margin_top && inherited(s, o).margin_right == s.margin_right,
        inherited(s, o).margin_bottom == s.margin_bottom && inherited(s, o).margin_left == s.margin_left,
{
    let n = inherit_keys().len();
    lemma_inherit_upto(s, o, n);
    assert(inherit_keys().take(n as int) =~= inherit_keys());
    assert(j < 64);
    assert(!inherit_keys().contains(crate::style::keys::TRANSFORM_KEY)) by {
        if inherit_keys().contains(crate::style::keys::TRANSFORM_KEY) {
            let i = choose|i: int| 0 <= i < inherit_keys().len() && inherit_keys()[i] == crate::style::keys::TRANSFORM_KEY;
            assert(inherit_keys()[i] != crate::style::keys::TRANSFORM_KEY);
        }
    }
    assert(j != crate::style::keys::MARGIN_BACKGROUND_KEY) by {
        if j == crate::style::keys::MARGIN_BACKGROUND_KEY && inherit_keys().contains(j) {
            let i = choose|i: int| 0 <= i < inherit_keys().len() && inherit_keys()[i] == j;
            assert(inherit_keys()[i] != crate::style::keys::MARGIN_BACKGROUND_KEY);
        }
    }
    let t = inherit_upto(s, o, n);
    assert(t.has(j) == (s.has(j) || (o.has(j) && seen_key(n, j))));
    assert(t.has(crate::style::keys::TRANSFORM_KEY) == s.has(crate::style::keys::TRANSFORM_KEY)) by {
        assert(t.has(crate::style::keys::TRANSFORM_KEY) == (s.has(crate::style::keys::TRANSFORM_KEY) || (o.has(
            crate::style::keys::TRANSFORM_KEY,
        ) && seen_key(n, crate::style::keys::TRANSFORM_KEY))));
    }
}


/// Equivalent styles render any text identically, under any color profile:
/// `is_equivalent` compares everything rendering reads.
#[verifier::rlimit(80)]
pub proof fn law_equivalent_renders_alike<T, U>(a: Style<T>, b: Style<U>, dp: ColorProfileKind, s: Seq<char>)
    requires
        equivalent(a, b),
    ensures
        prepared(a, s) == prepared(b, s),
        render_text(a, dp, prepared(a, s)) == render_text(b, dp, prepared(b, s)),
{
    assert(content_of(a, s) == content_of(b, s));
    assert(prepared(a, s) == prepared(b, s));
    let t = prepared(a, s);
    assert(tabs_done(a, t) == tabs_done(b, t));
    let t1 = tabs_done(a, t);
    assert(max_done(a, t1) == max_done(b, t1));
    let t2 = max_done(a, t1);
    assert(wrapped(a, t2) == wrapped(b, t2));
    assert(body(a, t) == body(b, t));
    let p = profile_of(a, dp);
    assert(profile_of(b, dp) == p);
    assert(style_sgr(a, p) == style_sgr(b, p));
    assert(draws_border(a) == draws_border(b));
    assert(plain(a, p) == plain(b, p));
    assert(edge_sgrs(a, p) == edge_sgrs(b, p));
    if a.has(crate::style::keys::BORDER_STYLE_KEY) {
        let pa = border_parts(a.border_style);
        let pb = border_parts(b.border_style);
        assert(pa == pb);
        assert(pa[0] == pb[0] && pa[1] == pb[1] && pa[2] == pb[2] && pa[3] == pb[3]);
        assert(pa[4] == pb[4] && pa[5] == pb[5] && pa[6] == pb[6] && pa[7] == pb[7]);
        assert forall|ls: Seq<Seq<char>>| bordered(a, p, ls) == bordered(b, p, ls) by {}
    }
    assert forall|ls: Seq<Seq<char>>| with_border(a, p, ls) == with_border(b, p, ls) by {}
    assert(render_core(a, p, t) == render_core(b, p, t));
    assert(margin_token(a, dp) == margin_token(b, dp));
    assert(with_margins(a, dp, render_core(a, p, t)) == with_margins(b, dp, render_core(a, p, t)));
}

// ---------------------------------------------------------------------
// Rendering
// ---------------------------------------------------------------------

/// A style with nothing set adds nothing to text: under any color profile
/// it renders `s` with line endings normalised to `\n` and every tab
/// turned into four spaces, and text without tabs or carriage returns
/// exactly as it is.
pub proof fn law_blank_style_renders_text_unchanged<T>(st: Style<T>, dp: ColorProfileKind, s: Seq<char>)
    requires
        is_blank_style(st),
    ensures
        render_text(st, dp, prepared(st, s)) == replace_char(crlf(s), '\t', capped_repeat(' ', 4)),
        !s.contains('\t') && !s.contains('\r') ==> render_text(st, dp, prepared(st, s)) == s,
{
    let c = crlf(s);
    assert(content_of(st, s) == s);
    assert(!st.has(crate::style::keys::INLINE_KEY));
    assert(prepared(st, s) == c);
    assert(!st.has(crate::style::keys::TAB_WIDTH_KEY));
    let t = replace_char(c, '\t', capped_repeat(' ', 4));
    assert(tabs_done(st, c) == t);
    assert(!st.has(crate::style::keys::MAX_HEIGHT_KEY) && !st.has(crate::style::keys::MAX_WIDTH_KEY));
    assert(max_done(st, t) == t);
    assert(wrapped(st, t) == t);
    assert(body(st, c) == t);
    let p = profile_of(st, dp);
    assert(!st.has(crate::style::keys::BOLD_KEY) && !st.has(crate::style::keys::FAINT_KEY));
    assert(!st.has(crate::style::keys::ITALIC_KEY) && !st.has(crate::style::keys::UNDERLINE_KEY));
    assert(!st.has(crate::style::keys::BLINK_KEY) && !st.has(crate::style::keys::REVERSE_KEY));
    assert(!st.has(crate::style::keys::STRIKETHROUGH_KEY));
    assert(!st.has(crate::style::keys::FOREGROUND_KEY) && !st.has(crate::style::keys::BACKGROUND_KEY));
    assert(style_sgr(st, p) =~= Seq::<Seq<char>>::empty());
    assert(plain(st, p));
    if !s.contains('\t') && !s.contains('\r') {
        assert forall|i: int| 0 <= i < s.len() implies s[i] != '\r' by {
            if s[i] == '\r' {
                assert(s.contains('\r'));
            }
        }
        law_crlf_identity(s);
        law_replace_absent(s, '\t', capped_repeat(' ', 4));
    }
}

// ---------------------------------------------------------------------
// Word wrapping a line that fits
// ---------------------------------------------------------------------

/// The words with one space between each two.
pub open spec fn spaced(words: Seq<Seq<char>>) -> Seq<char>
    decreases words.len(),
{
    if words.len() == 0 {
        Seq::<char>::empty()
    } else if words.len() == 1 {
        words[0]
    } else {
        spaced(words.drop_last()) + seq![' '] + words.last()
    }
}

/// Cells the words take, with one cell for each space between two of them.
pub open spec fn spaced_cells(words: Seq<Seq<char>>) -> nat
    decreases words.len(),
{
    if words.len() == 0 {
        0
    } else if words.len() == 1 {
        visible_width(words[0])
    } else {
        spaced_cells(words.drop_last()) + 1 + visible_width(words.last())
    }
}

/// A word: characters that take at least one cell, none of them a space
/// or an escape character.
pub open spec fn plain_word(t: Seq<char>) -> bool {
    &&& t.len() > 0
    &&& visible_width(t) > 0
    &&& forall|k: int| 0 <= k < t.len() ==> #[trigger] t[k] != ' ' && t[k] != '\u{1b}'
}

/// The tokens of spaced words: the words with a space token between each two.
spec fn word_tokens(words: Seq<Seq<char>>) -> Seq<Seq<char>> {
    Seq::new((2 * words.len() - 1) as nat, |t: int| if t % 2 == 0 { words[t / 2] } else { seq![' '] })
}

proof fn lemma_spaced_step(words: Seq<Seq<char>>, m: int)
    requires
        1 <= m < words.len(),
    ensures
        spaced(words.take(m + 1)) == spaced(words.take(m)) + seq![' '] + words[m],
        spaced_cells(words.take(m + 1)) == spaced_cells(words.take(m)) + 1 + visible_width(words[m]),
{
    assert(words.take(m + 1).drop_last() =~= words.take(m));
    assert(words.take(m + 1).last() == words[m]);
}

proof fn lemma_spaced_prefix(words: Seq<Seq<char>>, m: int)
    requires
        1 <= m <= words.len(),
    ensures
        spaced(words.take(m)).len() <= spaced(words).len(),
        spaced(words).subrange(0, spaced(words.take(m)).len() as int) == spaced(words.take(m)),
        spaced_cells(words.take(m)) <= spaced_cells(words),
    decreases words.len() - m,
{
    if m == words.len() {
        assert(words.take(m) =~= words);
    } else {
        lemma_spaced_prefix(words, m + 1);
        lemma_spaced_step(words, m);
        let p = spaced(words.take(m));
        let q = spaced(words.take(m + 1));
        assert(spaced(words).subrange(0, p.len() as int) =~= q.subrange(0, p.len() as int));
        assert(q.subrange(0, p.len() as int) =~= p);
    }
}

proof fn lemma_not_break(c: char)
    requires
        c != ' ',
    ensures
        !seq![' '].contains(c),
{
    if seq![' '].contains(c) {
        let x = choose|x: int| 0 <= x < seq![' '].len() && seq![' '][x] == c;
        assert(seq![' '][x] == ' ');
    }
}

proof fn lemma_tokens_scan(s: Seq<char>, i: int, k: int, toks: Seq<Seq<char>>, cur: Seq<char>)
    requires
        0 <= i,
        0 <= k,
        i + k <= s.len(),
        forall|p: int| i <= p < i + k ==> #[trigger] s[p] != ' ' && s[p] != '\u{1b}',
    ensures
        tokens_from(s, seq![' '], i, toks, cur) == tokens_from(s, seq![' '], i + k, toks, cur + s.subrange(i, i + k)),
    decreases k,
{
    if k == 0 {
        assert(cur + s.subrange(i, i) =~= cur);
    } else {
        assert(s[i] != ' ' && s[i] != '\u{1b}');
        lemma_not_break(s[i]);
        lemma_tokens_scan(s, i + 1, k - 1, toks, cur.push(s[i]));
        assert(cur.push(s[i]) + s.subrange(i + 1, i + k) =~= cur + s.subrange(i, i + k));
    }
}

proof fn lemma_tokens_spaced_from(words: Seq<Seq<char>>, m: int)
    requires
        1 <= m <= words.len(),
        forall|k: int| 0 <= k < words.len() ==> plain_word(#[trigger] words[k]),
    ensures
        tokens_from(
            spaced(words),
            seq![' '],
            spaced(words.take(m)).len() as int,
            word_tokens(words).take(2 * m - 2),
            words[m - 1],
        ) == word_tokens(words),
    decreases words.len() - m,
{
    let s = spaced(words);
    let n = words.len() as int;
    let wt = word_tokens(words);
    let p = spaced(words.take(m));
    assert(plain_word(words[m - 1]));
    if m == n {
        assert(words.take(m) =~= words);
        assert(wt.take(2 * m - 2).push(words[m - 1]) =~= wt);
    } else {
        lemma_spaced_prefix(words, m + 1);
        lemma_spaced_step(words, m);
        let q = spaced(words.take(m + 1));
        let w = words[m];
        assert(plain_word(w));
        assert(s[p.len() as int] == q[p.len() as int]);
        assert(q[p.len() as int] == ' ');
        assert(seq![' '].contains(' ')) by {
            assert(seq![' '][0] == ' ');
        }
        let t1 = wt.take(2 * m - 2).push(words[m - 1]).push(seq![' ']);
        assert(t1 =~= wt.take(2 * m));
        let start: int = p.len() as int + 1;
        assert forall|x: int| start <= x < start + w.len() implies #[trigger] s[x] != ' ' && s[x] != '\u{1b}' by {
            assert(s[x] == q[x]);
            assert(q[x] == w[x - start]);
        }
        lemma_tokens_scan(s, start, w.len() as int, wt.take(2 * m), Seq::<char>::empty());
        assert(s.subrange(start, start + w.len()) =~= w) by {
            assert forall|x: int| 0 <= x < w.len() implies s.subrange(start, start + w.len())[x] == w[x] by {
                assert(s[start + x] == q[start + x]);
            }
        }
        assert(Seq::<char>::empty() + w =~= w);
        assert(start + w.len() == q.len());
        lemma_tokens_spaced_from(words, m + 1);
    }
}

proof fn lemma_tokens_spaced(words: Seq<Seq<char>>)
    requires
        words.len() >= 1,
        forall|k: int| 0 <= k < words.len() ==> plain_word(#[trigger] words[k]),
    ensures
        tokens(spaced(words), seq![' ']) == word_tokens(words),
{
    let s = spaced(words);
    let w0 = words[0];
    assert(plain_word(w0));
    lemma_spaced_prefix(words, 1);
    assert(words.take(1).len() == 1);
    assert(spaced(words.take(1)) == w0);
    assert forall|x: int| 0 <= x < w0.len() implies #[trigger] s[x] != ' ' && s[x] != '\u{1b}' by {
        assert(s[x] == s.subrange(0, w0.len() as int)[x]);
    }
    lemma_tokens_scan(s, 0, w0.len() as int, Seq::<Seq<char>>::empty(), Seq::<char>::empty());
    assert(Seq::<char>::empty() + s.subrange(0, w0.len() as int) =~= w0);
    assert(word_tokens(words).take(0) =~= Seq::<Seq<char>>::empty());
    lemma_tokens_spaced_from(words, 1);
}

proof fn lemma_wrap_spaced_from(words: Seq<Seq<char>>, width: nat, m: int)
    requires
        1 <= m <= words.len(),
        forall|k: int| 0 <= k < words.len() ==> plain_word(#[trigger] words[k]),
        spaced_cells(words) <= width,
        spaced(words.take(m)).len() > 0,
        spaced_cells(words.take(m)) > 0,
    ensures
        word_wrap_from(
            word_tokens(words),
            width,
            2 * m - 1,
            Seq::<Seq<char>>::empty(),
            spaced(words.take(m)),
            spaced_cells(words.take(m)),
        ) == seq![spaced(words)],
    decreases words.len() - m,
{
    let n = words.len() as int;
    let toks = word_tokens(words);
    let cur = spaced(words.take(m));
    let w = spaced_cells(words.take(m));
    if m == n {
        assert(words.take(m) =~= words);
        assert(Seq::<Seq<char>>::empty().push(cur) =~= seq![spaced(words)]);
    } else {
        lemma_spaced_step(words, m);
        lemma_spaced_prefix(words, m + 1);
        let wm = words[m];
        assert(plain_word(wm));
        assert(toks[2 * m - 1] == seq![' ']);
        assert(toks[2 * m] == wm);
        assert(wm != seq![' ']) by {
            if wm == seq![' '] {
                assert(wm[0] == ' ');
            }
        }
        assert(cur.push(' ') + wm =~= cur + seq![' '] + wm);
        assert(w < width);
        let e = Seq::<Seq<char>>::empty();
        let mid = word_wrap_from(toks, width, 2 * m, e, cur.push(' '), w + 1);
        assert(word_wrap_from(toks, width, 2 * m - 1, e, cur, w) == mid);
        assert(mid == word_wrap_from(toks, width, 2 * m + 1, e, cur.push(' ') + wm, w + 1 + visible_width(wm)));
        lemma_wrap_spaced_from(words, width, m + 1);
    }
}

/// Word wrapping a line that fits gives that line back whole: words with
/// single spaces between them (no spaces at the ends), whose cells and
/// spaces add up to at most the width, come back as one line, every
/// space between two words kept.
pub proof fn law_word_wrap_fitting_line(words: Seq<Seq<char>>, width: nat)
    requires
        words.len() >= 1,
        forall|k: int| 0 <= k < words.len() ==> plain_word(#[trigger] words[k]),
        spaced_cells(words) <= width,
    ensures
        word_wrap(spaced(words), width) == seq![spaced(words)],
{
    let w0 = words[0];
    assert(plain_word(w0));
    lemma_tokens_spaced(words);
    lemma_spaced_prefix(words, 1);
    assert(words.take(1).len() == 1);
    assert(spaced(words.take(1)) == w0);
    assert(spaced_cells(words.take(1)) == visible_width(w0));
    let toks = word_tokens(words);
    assert(toks[0] == w0);
    assert(w0 != seq![' ']) by {
        if w0 == seq![' '] {
            assert(w0[0] == ' ');
        }
    }
    assert(Seq::<char>::empty() + w0 =~= w0);
    lemma_wrap_spaced_from(words, width, 1);
}

/// A word that does not fit after the one before it starts a new line:
/// for two words, each at most the width, whose cells with the space
/// between them exceed the width, wrapping gives the first word (with the
/// space after it when the line has room for it) and then the second.
pub proof fn law_word_wrap_breaks_before_overflow(a: Seq<char>, b: Seq<char>, width: nat)
    requires
        plain_word(a),
        plain_word(b),
        visible_width(a) <= width,
        visible_width(b) <= width,
        visible_width(a) + 1 + visible_width(b) > width,
    ensures
        word_wrap(a + seq![' '] + b, width) == seq![
            if visible_width(a) < width { a.push(' ') } else { a },
            b,
        ],
{
    let words = seq![a, b];
    assert(words.drop_last() =~= seq![a]);
    assert(spaced(seq![a]) == a);
    assert(words.last() == b);
    assert(spaced(words) == spaced(seq![a]) + seq![' '] + b);
    assert forall|k: int| 0 <= k < words.len() implies plain_word(#[trigger] words[k]) by {
        if k == 0 {
            assert(words[k] == a);
        } else {
            assert(words[k] == b);
        }
    }
    lemma_tokens_spaced(words);
    let toks = word_tokens(words);
    assert(toks.len() == 3);
    assert(toks[0] == a);
    assert(toks[1] == seq![' ']);
    assert(toks[2] == b);
    assert(a != seq![' ']) by {
        if a == seq![' '] {
            assert(a[0] == ' ');
        }
    }
    assert(b != seq![' ']) by {
        if b == seq![' '] {
            assert(b[0] == ' ');
        }
    }
    let e = Seq::<Seq<char>>::empty();
    let none = Seq::<char>::empty();
    let wa = visible_width(a);
    let wb = visible_width(b);
    assert(none + a =~= a);
    assert(none + b =~= b);
    let s1 = word_wrap_from(toks, width, 1, e, a, wa);
    assert(word_wrap_from(toks, width, 0, e, none, 0) == s1);
    let c2 = if wa < width { a.push(' ') } else { a };
    let w2: nat = if wa < width { wa + 1 } else { wa };
    let s2 = word_wrap_from(toks, width, 2, e, c2, w2);
    assert(s1 == s2);
    let s3 = word_wrap_from(toks, width, 3, e.push(c2), b, wb);
    assert(s2 == s3);
    assert(e.push(c2).push(b) =~= seq![c2, b]);
}

// ---------------------------------------------------------------------
// Padding and character replacement
// ---------------------------------------------------------------------

proof fn lemma_pad_sides_lines(x: Seq<char>, pl: nat, pr: nat)
    ensures
        forall|i: int, j: int|
            0 <= i < split_lines(x).len() && 0 <= j < (capped_repeat(' ', pl) + split_lines(x)[i] + capped_repeat(' ', pr)).len()
                ==> #[trigger] (capped_repeat(' ', pl) + split_lines(x)[i] + capped_repeat(' ', pr))[j] != '\n',
{
    lemma_split_lines_no_newline(x);
    assert forall|i: int, j: int|
        0 <= i < split_lines(x).len() && 0 <= j < (capped_repeat(' ', pl) + split_lines(x)[i] + capped_repeat(' ', pr)).len()
            implies #[trigger] (capped_repeat(' ', pl) + split_lines(x)[i] + capped_repeat(' ', pr))[j] != '\n' by {
        let l = split_lines(x)[i];
        let a = capped_repeat(' ', pl);
        if j >= a.len() && j < a.len() + l.len() {
            assert((a + l + capped_repeat(' ', pr))[j] == l[j - a.len()]);
        }
    }
}

/// Padding surrounds the laid-out text: every line of the wrapped text
/// gets `padding_left` spaces before it and `padding_right` after it, and
/// `padding_top` empty lines come above them and `padding_bottom` below
/// (each only where that side's padding is set and positive).
pub proof fn law_padding_lines<T>(st: Style<T>, t: Seq<char>)
    ensures
        split_lines(body(st, t)) == blank_lines(pad_of(st, PADDING_TOP_KEY, st.padding_top)) + split_lines(
            wrapped(st, max_done(st, tabs_done(st, t))),
        ).map_values(
            |l: Seq<char>|
                capped_repeat(' ', pad_of(st, PADDING_LEFT_KEY, st.padding_left)) + l + capped_repeat(
                    ' ',
                    pad_of(st, PADDING_RIGHT_KEY, st.padding_right),
                ),
        ) + blank_lines(pad_of(st, PADDING_BOTTOM_KEY, st.padding_bottom)),
{
    let x = wrapped(st, max_done(st, tabs_done(st, t)));
    let pl = pad_of(st, PADDING_LEFT_KEY, st.padding_left);
    let pr = pad_of(st, PADDING_RIGHT_KEY, st.padding_right);
    let pt = pad_of(st, PADDING_TOP_KEY, st.padding_top);
    let pb = pad_of(st, PADDING_BOTTOM_KEY, st.padding_bottom);
    let xs = split_lines(x);
    let m = xs.map_values(|l: Seq<char>| capped_repeat(' ', pl) + l + capped_repeat(' ', pr));
    lemma_split_lines_len(x);
    lemma_pad_sides_lines(x, pl, pr);
    assert forall|i: int, j: int| 0 <= i < m.len() && 0 <= j < m[i].len() implies #[trigger] m[i][j] != '\n' by {
        assert(m[i] == capped_repeat(' ', pl) + xs[i] + capped_repeat(' ', pr));
    }
    let y = if pl > 0 || pr > 0 { join_lines(m) } else { x };
    if pl > 0 || pr > 0 {
        lemma_split_join(m);
    } else {
        assert forall|i: int| 0 <= i < xs.len() implies m[i] == xs[i] by {
            assert(capped_repeat(' ', 0) + xs[i] + capped_repeat(' ', 0) =~= xs[i]);
        }
        assert(m =~= xs);
    }
    assert(split_lines(y) == m);
    let all = blank_lines(pt) + m + blank_lines(pb);
    if pt > 0 || pb > 0 {
        assert forall|i: int, j: int| 0 <= i < all.len() && 0 <= j < all[i].len() implies #[trigger] all[i][j] != '\n' by {
            if pt <= i < pt + m.len() {
                assert(all[i] == m[i - pt]);
            } else if i < pt {
                assert(all[i] == Seq::<char>::empty());
            } else {
                assert(all[i] == Seq::<char>::empty());
            }
        }
        lemma_split_join(all);
    } else {
        assert(all =~= m);
    }
}

/// Replacing a character works piece by piece: replacing in a joined text
/// is replacing in each part, the character itself becomes the
/// replacement, and any other character stays.
pub proof fn law_replace_char_pieces(a: Seq<char>, b: Seq<char>, c: char, r: Seq<char>, x: char)
    ensures
        replace_char(a + b, c, r) == replace_char(a, c, r) + replace_char(b, c, r),
        replace_char(seq![c], c, r) == r,
        x != c ==> replace_char(seq![x], c, r) == seq![x],
    decreases b.len(),
{
    assert(seq![c].drop_last() =~= Seq::<char>::empty());
    assert(seq![x].drop_last() =~= Seq::<char>::empty());
    assert(seq![c].last() == c);
    assert(seq![x].last() == x);
    assert(replace_char(Seq::<char>::empty(), c, r) == Seq::<char>::empty());
    assert(Seq::<char>::empty() + r =~= r);
    assert(Seq::<char>::empty().push(x) =~= seq![x]);
    if b.len() == 0 {
        assert(a + b =~= a);
        assert(replace_char(a, c, r) + replace_char(b, c, r) =~= replace_char(a, c, r));
    } else {
        law_replace_char_pieces(a, b.drop_last(), c, r, x);
        assert((a + b).drop_last() =~= a + b.drop_last());
        assert((a + b).last() == b.last());
        let p = replace_char(a, c, r);
        let q = replace_char(b.drop_last(), c, r);
        if b.last() == c {
            assert(p + q + r =~= p + (q + r));
        } else {
            assert((p + q).push(b.last()) =~= p + q.push(b.last()));
        }
    }
}

/// Replacing a character by text that does not hold it leaves none of it.
pub proof fn law_replace_char_removes(s: Seq<char>, c: char, r: Seq<char>)
    requires
        !r.contains(c),
    ensures
        !replace_char(s, c, r).contains(c),
    decreases s.len(),
{
    if s.len() > 0 {
        law_replace_char_removes(s.drop_last(), c, r);
        let p = replace_char(s.drop_last(), c, r);
        if s.last() == c {
            if (p + r).contains(c) {
                let k = choose|k: int| 0 <= k < (p + r).len() && (p + r)[k] == c;
                if k < p.len() {
                    assert(p[k] == c);
                } else {
                    assert(r[k - p.len()] == c);
                }
            }
        } else {
            if p.push(s.last()).contains(c) {
                let k = choose|k: int| 0 <= k < p.push(s.last()).len() && p.push(s.last())[k] == c;
                if k < p.len() {
                    assert(p[k] == c);
                }
            }
        }
    }
}

/// An inline style renders its text on one line: the prepared text holds
/// no newline (line breaks, `\r\n` and lone `\r` included, are removed);
/// otherwise it is the text with line endings normalised.
pub proof fn law_inline_one_line<T>(st: Style<T>, s: Seq<char>)
    ensures
        st.flag(INLINE_KEY, ATTR_INLINE) ==> !prepared(st, s).contains('\n') && !prepared(st, s).contains('\r'),
        !st.flag(INLINE_KEY, ATTR_INLINE) ==> prepared(st, s) == crlf(content_of(st, s)),
{
    let c = crlf(content_of(st, s));
    if st.flag(INLINE_KEY, ATTR_INLINE) {
        let e = Seq::<char>::empty();
        law_replace_char_removes(c, '\n', e);
        law_crlf_no_cr(content_of(st, s));
        law_replace_keeps_absent(c, '\n', e, '\r');
    }
}

/// Replacing one character keeps any other character out when neither the
/// text nor the replacement holds it.
pub proof fn law_replace_keeps_absent(s: Seq<char>, c: char, r: Seq<char>, x: char)
    requires
        x != c,
        !r.contains(x),
        forall|k: int| 0 <= k < s.len() ==> s[k] != x,
    ensures
        !replace_char(s, c, r).contains(x),
    decreases s.len(),
{
    if s.len() > 0 {
        assert forall|k: int| 0 <= k < s.drop_last().len() implies s.drop_last()[k] != x by {
            assert(s.drop_last()[k] == s[k]);
        }
        law_replace_keeps_absent(s.drop_last(), c, r, x);
        let p = replace_char(s.drop_last(), c, r);
        assert(s.last() == s[s.len() - 1]);
        if s.last() == c {
            if (p + r).contains(x) {
                let k = choose|k: int| 0 <= k < (p + r).len() && (p + r)[k] == x;
                if k < p.len() {
                    assert(p[k] == x);
                } else {
                    assert(r[k - p.len()] == x);
                }
            }
        } else {
            if p.push(s.last()).contains(x) {
                let k = choose|k: int| 0 <= k < p.push(s.last()).len() && p.push(s.last())[k] == x;
                if k < p.len() {
                    assert(p[k] == x);
                }
            }
        }
    }
}

// ---------------------------------------------------------------------
// Hard wrapping fills lines greedily
// ---------------------------------------------------------------------

/// Cells the characters of `l` take, one after another.
pub open spec fn char_cells(l: Seq<char>) -> nat
    decreases l.len(),
{
    if l.len() == 0 {
        0
    } else {
        char_cells(l.drop_last()) + cell_width(l.last())
    }
}

/// A wrapped line fits in `width` cells, or is one character wider than
/// that (after characters that take no cells).
pub open spec fn line_fits(l: Seq<char>, width: nat) -> bool {
    char_cells(l) <= width || (l.len() > 0 && char_cells(l.drop_last()) == 0)
}

/// Line `b` follows line `a` only because its first character would not
/// have fit on `a`.
pub open spec fn breaks_before(a: Seq<char>, b: Seq<char>, width: nat) -> bool {
    b.len() > 0 && char_cells(a) + cell_width(b[0]) > width
}

/// Lines filled greedily: each fits, and each but the first starts with a
/// character that did not fit on the line before it.
pub open spec fn filled_greedily(ls: Seq<Seq<char>>, width: nat) -> bool {
    &&& forall|k: int| 0 <= k < ls.len() ==> line_fits(#[trigger] ls[k], width)
    &&& forall|k: int, m: int| 0 <= k && m == k + 1 && m < ls.len() ==> breaks_before(#[trigger] ls[k], #[trigger] ls[m], width)
}

proof fn lemma_greedy_push(ls: Seq<Seq<char>>, x: Seq<char>, width: nat)
    requires
        filled_greedily(ls, width),
        line_fits(x, width),
        ls.len() > 0 ==> breaks_before(ls.last(), x, width),
    ensures
        filled_greedily(ls.push(x), width),
{
    let q = ls.push(x);
    assert forall|k: int| 0 <= k < q.len() implies line_fits(#[trigger] q[k], width) by {
        if k < ls.len() {
            assert(q[k] == ls[k]);
        }
    }
    assert forall|k: int, m: int| 0 <= k && m == k + 1 && m < q.len() implies breaks_before(#[trigger] q[k], #[trigger] q[m], width) by {
        if m < ls.len() {
            assert(q[k] == ls[k] && q[m] == ls[m]);
        } else {
            assert(q[k] == ls.last());
        }
    }
}

proof fn lemma_hard_wrap_from_greedy(s: Seq<char>, width: nat, i: int, lines: Seq<Seq<char>>, cur: Seq<char>, w: nat)
    requires
        0 <= i <= s.len(),
        width > 0,
        forall|k: int| 0 <= k < s.len() ==> #[trigger] s[k] != '\u{1b}',
        w == char_cells(cur),
        line_fits(cur, width),
        filled_greedily(lines, width),
        lines.len() > 0 ==> breaks_before(lines.last(), cur, width),
    ensures
        filled_greedily(crate::style::wrap::hard_wrap_from(s, width, i, lines, cur, w), width),
    decreases s.len() - i,
{
    if i >= s.len() {
        if cur.len() > 0 {
            lemma_greedy_push(lines, cur, width);
        } else if lines.len() == 0 {
            let one = seq![Seq::<char>::empty()];
            assert(char_cells(Seq::<char>::empty()) == 0);
            assert(one =~= Seq::<Seq<char>>::empty().push(Seq::<char>::empty()));
            lemma_greedy_push(Seq::<Seq<char>>::empty(), Seq::<char>::empty(), width);
        }
    } else {
        let c = s[i];
        assert(c != '\u{1b}');
        let one = seq![c];
        assert(one.drop_last() =~= Seq::<char>::empty());
        assert(one.last() == c);
        assert(char_cells(Seq::<char>::empty()) == 0);
        assert(char_cells(one) == char_cells(one.drop_last()) + cell_width(c));
        assert(char_cells(one) == cell_width(c));
        if w + cell_width(c) > width && w > 0 {
            assert(cur.len() > 0);
            lemma_greedy_push(lines, cur, width);
            assert(one[0] == c);
            lemma_hard_wrap_from_greedy(s, width, i + 1, lines.push(cur), one, cell_width(c));
        } else {
            let nc = cur.push(c);
            assert(nc.drop_last() =~= cur);
            assert(nc.last() == c);
            if cur.len() > 0 {
                assert(nc[0] == cur[0]);
            }
            lemma_hard_wrap_from_greedy(s, width, i + 1, lines, nc, w + cell_width(c));
        }
    }
}

/// Hard wrapping text without escape sequences fills lines greedily: every
/// line takes at most the width (or is a single wider character), and each
/// line after the first starts with the character that would have made the
/// line before it too wide.
pub proof fn law_hard_wrap_greedy(s: Seq<char>, width: nat)
    requires
        width > 0,
        forall|k: int| 0 <= k < s.len() ==> #[trigger] s[k] != '\u{1b}',
    ensures
        filled_greedily(hard_wrap(s, width), width),
{
    assert(char_cells(Seq::<char>::empty()) == 0);
    lemma_hard_wrap_from_greedy(s, width, 0, Seq::<Seq<char>>::empty(), Seq::<char>::empty(), 0);
}

} // verus!
