//! Escape-aware line handling: truncating a line to a width, and breaking
//! text into tokens and wrapped lines without splitting escape sequences.

use vstd::prelude::*;
use crate::security::MAX_ANSI_SEQ_LEN;
use crate::strings::{append_chars, chars_of, string_from_chars};
use crate::utils::{char_width, spec_char_width, visible_width, width_visible_chars};

verus! {

/// Cells a character takes; control characters take none.
pub open spec fn cell_width(c: char) -> nat {
    match spec_char_width(c) {
        Some(w) => w as nat,
        None => 0,
    }
}

/// Whether `c` ends an escape sequence: `m`, or any final byte `@`..`~`
/// other than `[`.
pub open spec fn ends_escape(c: char) -> bool {
    c == 'm' || (c != '[' && '@' <= c <= '~')
}

/// Characters taken after an escape character that starts at `p - scanned`:
/// up to and including the one that ends the sequence, at most
/// `MAX_ANSI_SEQ_LEN` in all, or up to the end of `s`.
pub open spec fn esc_scan(s: Seq<char>, p: int, scanned: nat) -> nat
    decreases s.len() - p,
{
    if p >= s.len() || p < 0 {
        0
    } else if ends_escape(s[p]) || scanned + 1 >= MAX_ANSI_SEQ_LEN {
        1
    } else {
        1 + esc_scan(s, p + 1, scanned + 1)
    }
}

/// An escape sequence never runs past the end of the text.
pub proof fn lemma_esc_scan_bound(s: Seq<char>, p: int, scanned: nat)
    requires
        0 <= p <= s.len(),
    ensures
        p + esc_scan(s, p, scanned) <= s.len(),
    decreases s.len() - p,
{
    if p < s.len() && !(ends_escape(s[p]) || scanned + 1 >= MAX_ANSI_SEQ_LEN) {
        lemma_esc_scan_bound(s, p + 1, scanned + 1);
    }
}

/// Number of characters an escape sequence takes after its escape
/// character at `start - 1`.
fn scan_escape(s: &[char], start: usize) -> (n: usize)
    requires
        start <= s.len(),
    ensures
        n == esc_scan(s@, start as int, 0),
        start + n <= s.len(),
{
    proof {
        lemma_esc_scan_bound(s@, start as int, 0);
    }
    let mut p = start;
    let mut scanned: usize = 0;
    while p < s.len()
        invariant
            start <= p <= s.len(),
            scanned == p - start,
            scanned < MAX_ANSI_SEQ_LEN,
            esc_scan(s@, start as int, 0) == scanned + esc_scan(s@, p as int, scanned as nat),
            p > start ==> !ends_escape(s@[p - 1]),
        decreases s.len() - p,
    {
        let c = s[p];
        let done = c == 'm' || (c != '[' && '@' <= c && c <= '~') || scanned + 1 >= MAX_ANSI_SEQ_LEN;
        if done {
            return scanned + 1;
        }
        p = p + 1;
        scanned = scanned + 1;
    }
    scanned
}

/// Cells a character takes, as the width function reports them.
fn cell_width_exec(c: char) -> (w: usize)
    ensures
        w == cell_width(c),
{
    match char_width(c) {
        Some(w) => w,
        None => 0,
    }
}

/// Appends `s[from..to]` to `dst`.
fn append_range(dst: &mut Vec<char>, s: &[char], from: usize, to: usize)
    requires
        from <= to <= s.len(),
    ensures
        final(dst)@ == old(dst)@ + s@.subrange(from as int, to as int),
{
    let ghost start = dst@;
    let mut i = from;
    while i < to
        invariant
            from <= i <= to <= s.len(),
            dst@ == start + s@.subrange(from as int, i as int),
        decreases to - i,
    {
        dst.push(s[i]);
        i = i + 1;
        assert(dst@ =~= start + s@.subrange(from as int, i as int));
    }
}

// ---------------------------------------------------------------------
// Truncating a line
// ---------------------------------------------------------------------

/// What truncation to `maxw` cells makes of `s` from position `i`, with `w`
/// cells used and `out` kept so far: escape sequences are kept whole and
/// take no cells; the first character that does not fit ends the line.
pub open spec fn truncate_from(s: Seq<char>, maxw: nat, i: int, w: nat, out: Seq<char>) -> Seq<char>
    decreases s.len() - i,
{
    if i >= s.len() || i < 0 {
        out
    } else if s[i] == '\u{1b}' {
        let n = esc_scan(s, i + 1, 0);
        proof {
            lemma_esc_scan_bound(s, i + 1, 0);
        }
        truncate_from(s, maxw, i + 1 + n, w, out + s.subrange(i, i + 1 + n))
    } else if w + cell_width(s[i]) > maxw {
        out
    } else {
        truncate_from(s, maxw, i + 1, w + cell_width(s[i]), out.push(s[i]))
    }
}

/// `s` cut to at most `maxw` cells (nothing when `maxw` is 0).
pub open spec fn truncate_line(s: Seq<char>, maxw: nat) -> Seq<char> {
    if maxw == 0 {
        Seq::<char>::empty()
    } else {
        truncate_from(s, maxw, 0, 0, Seq::<char>::empty())
    }
}

/// Cuts a line to at most `maxw` cells, keeping escape sequences whole.
pub fn truncate_line_chars(s: &[char], maxw: usize) -> (r: Vec<char>)
    ensures
        r@ == truncate_line(s@, maxw as nat),
{
    let mut out: Vec<char> = Vec::new();
    if maxw == 0 {
        return out;
    }
    let mut i: usize = 0;
    let mut w: usize = 0;
    while i < s.len()
        invariant
            i <= s.len(),
            w <= maxw,
            truncate_from(s@, maxw as nat, i as int, w as nat, out@) == truncate_line(s@, maxw as nat),
            maxw > 0,
        decreases s.len() - i,
    {
        let c = s[i];
        if c == '\u{1b}' {
            let n = scan_escape(s, i + 1);
            append_range(&mut out, s, i, i + 1 + n);
            i = i + 1 + n;
        } else {
            let cw = cell_width_exec(c);
            if cw > maxw - w {
                return out;
            }
            out.push(c);
            w = w + cw;
            i = i + 1;
        }
    }
    out
}

// ---------------------------------------------------------------------
// Hard wrapping
// ---------------------------------------------------------------------

/// Lines that hard wrapping at `width` makes of `s` from position `i`, with
/// `lines` done, `cur` the line being filled and `w` its cells: a character
/// that would overflow a non-empty line starts a new one; escape sequences
/// join the current line whole.
pub open spec fn hard_wrap_from(
    s: Seq<char>,
    width: nat,
    i: int,
    lines: Seq<Seq<char>>,
    cur: Seq<char>,
    w: nat,
) -> Seq<Seq<char>>
    decreases s.len() - i,
{
    if i >= s.len() || i < 0 {
        let done = if cur.len() > 0 { lines.push(cur) } else { lines };
        if done.len() == 0 { seq![Seq::<char>::empty()] } else { done }
    } else if s[i] == '\u{1b}' {
        let n = esc_scan(s, i + 1, 0);
        proof {
            lemma_esc_scan_bound(s, i + 1, 0);
        }
        hard_wrap_from(s, width, i + 1 + n, lines, cur + s.subrange(i, i + 1 + n), w)
    } else if w + cell_width(s[i]) > width && w > 0 {
        hard_wrap_from(s, width, i + 1, lines.push(cur), seq![s[i]], cell_width(s[i]))
    } else {
        hard_wrap_from(s, width, i + 1, lines, cur.push(s[i]), w + cell_width(s[i]))
    }
}

/// `s` broken into lines of at most `width` cells (a single wider character
/// stands on a line of its own); one empty line when `width` is 0 or
/// nothing is left.
pub open spec fn hard_wrap(s: Seq<char>, width: nat) -> Seq<Seq<char>> {
    if width == 0 {
        seq![Seq::<char>::empty()]
    } else {
        hard_wrap_from(s, width, 0, Seq::<Seq<char>>::empty(), Seq::<char>::empty(), 0)
    }
}

/// The characters of each line.
pub open spec fn strings_view(v: Seq<String>) -> Seq<Seq<char>> {
    v.map_values(|l: String| l@)
}

/// Breaks `s` into lines of at most `width` cells, keeping escape
/// sequences whole.
pub fn hard_wrap_chars(s: &[char], width: usize) -> (r: Vec<Vec<char>>)
    ensures
        r@.map_values(|l: Vec<char>| l@) == hard_wrap(s@, width as nat),
{
    let mut lines: Vec<Vec<char>> = Vec::new();
    if width == 0 {
        lines.push(Vec::new());
        assert(lines@.map_values(|l: Vec<char>| l@) =~= seq![Seq::<char>::empty()]);
        return lines;
    }
    let mut cur: Vec<char> = Vec::new();
    let mut w: usize = 0;
    let mut i: usize = 0;
    assert(lines@.map_values(|l: Vec<char>| l@) =~= Seq::<Seq<char>>::empty());
    while i < s.len()
        invariant
            i <= s.len(),
            width > 0,
            hard_wrap_from(s@, width as nat, i as int, lines@.map_values(|l: Vec<char>| l@), cur@, w as nat)
                == hard_wrap(s@, width as nat),
        decreases s.len() - i,
    {
        let c = s[i];
        if c == '\u{1b}' {
            let n = scan_escape(s, i + 1);
            append_range(&mut cur, s, i, i + 1 + n);
            i = i + 1 + n;
        } else {
            let cw = cell_width_exec(c);
            if (w as u128) + (cw as u128) > (width as u128) && w > 0 {
                let ghost before = lines@.map_values(|l: Vec<char>| l@);
                let ghost cv = cur@;
                lines.push(cur);
                assert(lines@.map_values(|l: Vec<char>| l@) =~= before.push(cv));
                cur = Vec::new();
                cur.push(c);
                assert(cur@ =~= seq![c]);
                w = cw;
            } else {
                cur.push(c);
                w = w + cw;
            }
            i = i + 1;
        }
    }
    let ghost before = lines@.map_values(|l: Vec<char>| l@);
    if cur.len() > 0 {
        let ghost cv = cur@;
        lines.push(cur);
        assert(lines@.map_values(|l: Vec<char>| l@) =~= before.push(cv));
    }
    if lines.len() == 0 {
        lines.push(Vec::new());
        assert(lines@.map_values(|l: Vec<char>| l@) =~= seq![Seq::<char>::empty()]);
    }
    lines
}

// ---------------------------------------------------------------------
// Tokens
// ---------------------------------------------------------------------

/// Tokens of `s` from position `i`, with `toks` done and `cur` being built:
/// each break character is a token of its own, escape sequences join the
/// current token whole, and other characters extend it.
pub open spec fn tokens_from(
    s: Seq<char>,
    brk: Seq<char>,
    i: int,
    toks: Seq<Seq<char>>,
    cur: Seq<char>,
) -> Seq<Seq<char>>
    decreases s.len() - i,
{
    if i >= s.len() || i < 0 {
        if cur.len() > 0 { toks.push(cur) } else { toks }
    } else if s[i] == '\u{1b}' {
        let n = esc_scan(s, i + 1, 0);
        proof {
            lemma_esc_scan_bound(s, i + 1, 0);
        }
        tokens_from(s, brk, i + 1 + n, toks, cur + s.subrange(i, i + 1 + n))
    } else if brk.contains(s[i]) {
        let t = if cur.len() > 0 { toks.push(cur) } else { toks };
        tokens_from(s, brk, i + 1, t.push(seq![s[i]]), Seq::<char>::empty())
    } else {
        tokens_from(s, brk, i + 1, toks, cur.push(s[i]))
    }
}

/// The tokens of `s` split at the break characters.
pub open spec fn tokens(s: Seq<char>, brk: Seq<char>) -> Seq<Seq<char>> {
    tokens_from(s, brk, 0, Seq::<Seq<char>>::empty(), Seq::<char>::empty())
}

fn contains_char(v: &[char], c: char) -> (b: bool)
    ensures
        b == v@.contains(c),
{
    let mut i: usize = 0;
    while i < v.len()
        invariant
            i <= v.len(),
            forall|k: int| 0 <= k < i ==> v@[k] != c,
        decreases v.len() - i,
    {
        if v[i] == c {
            assert(v@[i as int] == c);
            return true;
        }
        i = i + 1;
    }
    false
}

/// Splits `s` into tokens at the break characters, keeping escape
/// sequences inside tokens.
pub fn tokenize_chars(s: &[char], brk: &[char]) -> (r: Vec<Vec<char>>)
    ensures
        r@.map_values(|l: Vec<char>| l@) == tokens(s@, brk@),
{
    let mut toks: Vec<Vec<char>> = Vec::new();
    let mut cur: Vec<char> = Vec::new();
    let mut i: usize = 0;
    assert(toks@.map_values(|l: Vec<char>| l@) =~= Seq::<Seq<char>>::empty());
    while i < s.len()
        invariant
            i <= s.len(),
            tokens_from(s@, brk@, i as int, toks@.map_values(|l: Vec<char>| l@), cur@) == tokens(s@, brk@),
        decreases s.len() - i,
    {
        let c = s[i];
        if c == '\u{1b}' {
            let n = scan_escape(s, i + 1);
            append_range(&mut cur, s, i, i + 1 + n);
            i = i + 1 + n;
        } else if contains_char(brk, c) {
            if cur.len() > 0 {
                let ghost before = toks@.map_values(|l: Vec<char>| l@);
                let ghost cv = cur@;
                toks.push(cur);
                assert(toks@.map_values(|l: Vec<char>| l@) =~= before.push(cv));
                cur = Vec::new();
            }
            assert(cur@ =~= Seq::<char>::empty());
            let ghost before = toks@.map_values(|l: Vec<char>| l@);
            let mut t: Vec<char> = Vec::new();
            t.push(c);
            assert(t@ =~= seq![c]);
            toks.push(t);
            assert(toks@.map_values(|l: Vec<char>| l@) =~= before.push(seq![c]));
            i = i + 1;
        } else {
            cur.push(c);
            i = i + 1;
        }
    }
    if cur.len() > 0 {
        let ghost before = toks@.map_values(|l: Vec<char>| l@);
        let ghost cv = cur@;
        toks.push(cur);
        assert(toks@.map_values(|l: Vec<char>| l@) =~= before.push(cv));
    }
    toks
}

// ---------------------------------------------------------------------
// Word wrapping
// ---------------------------------------------------------------------

/// Lines that word wrapping at `width` makes of the tokens from `j`, with
/// `lines` done, `cur` the line being filled and `w` its cells. A space is
/// kept only inside a line that has room; a token that does not fit starts
/// a new line, and a token wider than a line is hard wrapped.
pub open spec fn word_wrap_from(
    toks: Seq<Seq<char>>,
    width: nat,
    j: int,
    lines: Seq<Seq<char>>,
    cur: Seq<char>,
    w: nat,
) -> Seq<Seq<char>>
    decreases toks.len() - j,
{
    if j >= toks.len() || j < 0 {
        let done = if cur.len() > 0 { lines.push(cur) } else { lines };
        if done.len() == 0 { seq![Seq::<char>::empty()] } else { done }
    } else {
        let t = toks[j];
        let tw = visible_width(t);
        if t == seq![' '] {
            if w > 0 && w < width {
                word_wrap_from(toks, width, j + 1, lines, cur.push(' '), w + 1)
            } else {
                word_wrap_from(toks, width, j + 1, lines, cur, w)
            }
        } else {
            let flush = w + tw > width && w > 0;
            let l1 = if flush { lines.push(cur) } else { lines };
            let c1 = if flush { Seq::<char>::empty() } else { cur };
            let w1: nat = if flush { 0 } else { w };
            if tw > width {
                let l2 = if c1.len() > 0 { l1.push(c1) } else { l1 };
                let c2 = if c1.len() > 0 { Seq::<char>::empty() } else { c1 };
                let wrapped = hard_wrap(t, width);
                if wrapped.len() > 0 {
                    word_wrap_from(
                        toks,
                        width,
                        j + 1,
                        l2 + wrapped.drop_last(),
                        wrapped.last(),
                        visible_width(wrapped.last()),
                    )
                } else {
                    word_wrap_from(toks, width, j + 1, l2, c2, w1)
                }
            } else {
                word_wrap_from(toks, width, j + 1, l1, c1 + t, w1 + tw)
            }
        }
    }
}

/// `text` word wrapped to `width` cells: split at spaces into tokens, each
/// kept whole where it fits; one empty line when `width` is 0 or nothing is
/// left.
pub open spec fn word_wrap(text: Seq<char>, width: nat) -> Seq<Seq<char>> {
    if width == 0 {
        seq![Seq::<char>::empty()]
    } else {
        word_wrap_from(tokens(text, seq![' ']), width, 0, Seq::<Seq<char>>::empty(), Seq::<char>::empty(), 0)
    }
}

/// Word wraps a line to `width` cells.
pub fn word_wrap_chars(text: &[char], width: usize) -> (r: Vec<Vec<char>>)
    ensures
        r@.map_values(|l: Vec<char>| l@) == word_wrap(text@, width as nat),
{
    let mut lines: Vec<Vec<char>> = Vec::new();
    if width == 0 {
        lines.push(Vec::new());
        assert(lines@.map_values(|l: Vec<char>| l@) =~= seq![Seq::<char>::empty()]);
        return lines;
    }
    let brk: [char; 1] = [' '];
    assert(brk@ =~= seq![' ']);
    let toks = tokenize_chars(text, &brk);
    let ghost tv = toks@.map_values(|l: Vec<char>| l@);
    let mut cur: Vec<char> = Vec::new();
    let mut w: usize = 0;
    let mut j: usize = 0;
    assert(lines@.map_values(|l: Vec<char>| l@) =~= Seq::<Seq<char>>::empty());
    while j < toks.len()
        invariant
            j <= toks.len(),
            width > 0,
            tv == toks@.map_values(|l: Vec<char>| l@),
            tv == tokens(text@, seq![' ']),
            word_wrap_from(tv, width as nat, j as int, lines@.map_values(|l: Vec<char>| l@), cur@, w as nat)
                == word_wrap(text@, width as nat),
        decreases toks.len() - j,
    {
        let t = &toks[j];
        assert(t@ == tv[j as int]);
        let tw = width_visible_chars(t.as_slice());
        let is_space = t.len() == 1 && t[0] == ' ';
        assert(is_space == (t@ == seq![' '])) by {
            if t@ == seq![' '] {
                assert(t@[0] == ' ');
            }
            if is_space {
                assert(t@ =~= seq![' ']);
            }
        }
        if is_space {
            if w > 0 && w < width {
                cur.push(' ');
                w = w + 1;
            }
        } else {
            let flush = (w as u128) + (tw as u128) > (width as u128) && w > 0;
            if flush {
                let ghost before = lines@.map_values(|l: Vec<char>| l@);
                let ghost cv = cur@;
                lines.push(cur);
                assert(lines@.map_values(|l: Vec<char>| l@) =~= before.push(cv));
                cur = Vec::new();
                w = 0;
            }
            if tw > width {
                if cur.len() > 0 {
                    let ghost before = lines@.map_values(|l: Vec<char>| l@);
                    let ghost cv = cur@;
                    lines.push(cur);
                    assert(lines@.map_values(|l: Vec<char>| l@) =~= before.push(cv));
                    cur = Vec::new();
                }
                assert(cur@ =~= Seq::<char>::empty() || cur.len() == 0);
                let mut wrapped = hard_wrap_chars(t.as_slice(), width);
                let ghost wv = wrapped@.map_values(|l: Vec<char>| l@);
                if wrapped.len() > 0 {
                    let last = wrapped.pop().unwrap();
                    assert(last@ == wv.last());
                    let ghost before = lines@.map_values(|l: Vec<char>| l@);
                    let mut k: usize = 0;
                    while k < wrapped.len()
                        invariant
                            k <= wrapped.len(),
                            wrapped@.map_values(|l: Vec<char>| l@) == wv.drop_last(),
                            lines@.map_values(|l: Vec<char>| l@) == before + wv.drop_last().take(k as int),
                        decreases wrapped.len() - k,
                    {
                        let mut line: Vec<char> = Vec::new();
                        append_chars(&mut line, wrapped[k].as_slice());
                        assert(line@ =~= wv.drop_last()[k as int]);
                        let ghost b2 = lines@.map_values(|l: Vec<char>| l@);
                        let ghost lv = line@;
                        lines.push(line);
                        assert(lines@.map_values(|l: Vec<char>| l@) =~= b2.push(lv));
                        assert(wv.drop_last().take(k + 1) =~= wv.drop_last().take(k as int).push(lv));
                        k = k + 1;
                    }
                    assert(wv.drop_last().take(wrapped.len() as int) =~= wv.drop_last());
                    w = width_visible_chars(last.as_slice());
                    cur = last;
                }
            } else {
                append_chars(&mut cur, t.as_slice());
                w = w + tw;
            }
        }
        j = j + 1;
    }
    let ghost before = lines@.map_values(|l: Vec<char>| l@);
    if cur.len() > 0 {
        let ghost cv = cur@;
        lines.push(cur);
        assert(lines@.map_values(|l: Vec<char>| l@) =~= before.push(cv));
    }
    if lines.len() == 0 {
        lines.push(Vec::new());
        assert(lines@.map_values(|l: Vec<char>| l@) =~= seq![Seq::<char>::empty()]);
    }
    lines
}

} // verus!
