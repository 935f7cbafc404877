//! Text operations a style applies while rendering: tab conversion and
//! truncation, and the escape-aware wrapping helpers as strings.

use vstd::prelude::*;
use crate::security::{capped_repeat, safe_repeat};
use crate::strings::{append_chars, chars_of, string_from_chars};
use crate::style::data::{NoTransform, Style, TextTransform};
use crate::style::keys::TAB_WIDTH_KEY;
use crate::style::wrap::{
    hard_wrap, hard_wrap_chars, strings_view, tokenize_chars, tokens, truncate_line,
    truncate_line_chars, word_wrap, word_wrap_chars,
};
use crate::text::{join_lines, join_lines_exec, lines_view, split_lines, split_lines_exec};

verus! {

/// `s` with every `c` replaced by `r`.
pub open spec fn replace_char(s: Seq<char>, c: char, r: Seq<char>) -> Seq<char>
    decreases s.len(),
{
    if s.len() == 0 {
        Seq::<char>::empty()
    } else {
        let p = replace_char(s.drop_last(), c, r);
        if s.last() == c { p + r } else { p.push(s.last()) }
    }
}

/// Replaces every `c` in `s` by `r`.
pub fn replace_char_exec(s: &[char], c: char, r: &[char]) -> (out: Vec<char>)
    ensures
        out@ == replace_char(s@, c, r@),
{
    let mut out: Vec<char> = Vec::new();
    let mut i: usize = 0;
    assert(s@.take(0) =~= Seq::<char>::empty());
    while i < s.len()
        invariant
            i <= s.len(),
            out@ == replace_char(s@.take(i as int), c, r@),
        decreases s.len() - i,
    {
        assert(s@.take(i + 1).drop_last() =~= s@.take(i as int));
        assert(s@.take(i + 1).last() == s@[i as int]);
        if s[i] == c {
            append_chars(&mut out, r);
        } else {
            out.push(s[i]);
        }
        i = i + 1;
    }
    assert(s@.take(s.len() as int) =~= s@);
    out
}

/// Strings holding the given lines.
pub fn lines_to_strings(v: &Vec<Vec<char>>) -> (r: Vec<String>)
    ensures
        strings_view(r@) == lines_view(v@),
{
    let mut r: Vec<String> = Vec::new();
    let mut i: usize = 0;
    while i < v.len()
        invariant
            i <= v.len(),
            strings_view(r@) == lines_view(v@).take(i as int),
        decreases v.len() - i,
    {
        let ghost before = strings_view(r@);
        let s = string_from_chars(v[i].as_slice());
        let ghost sv = s@;
        r.push(s);
        assert(strings_view(r@) =~= before.push(sv));
        assert(lines_view(v@).take(i + 1) =~= lines_view(v@).take(i as int).push(sv));
        i = i + 1;
    }
    assert(lines_view(v@).take(v.len() as int) =~= lines_view(v@));
    r
}

/// The text with every line cut to `maxw` cells.
pub open spec fn truncate_lines(s: Seq<char>, maxw: nat) -> Seq<char> {
    join_lines(split_lines(s).map_values(|l: Seq<char>| truncate_line(l, maxw)))
}

/// Cuts every line of `s` to `maxw` cells.
pub fn truncate_lines_chars(s: &[char], maxw: usize) -> (r: Vec<char>)
    ensures
        r@ == truncate_lines(s@, maxw as nat),
{
    let lines = split_lines_exec(s);
    let ghost ls = split_lines(s@);
    let mut out: Vec<Vec<char>> = Vec::new();
    let mut i: usize = 0;
    while i < lines.len()
        invariant
            i <= lines.len(),
            lines_view(lines@) == ls,
            lines_view(out@) == ls.map_values(|l: Seq<char>| truncate_line(l, maxw as nat)).take(i as int),
        decreases lines.len() - i,
    {
        let ghost before = lines_view(out@);
        let t = truncate_line_chars(lines[i].as_slice(), maxw);
        let ghost tv = t@;
        out.push(t);
        assert(lines_view(out@) =~= before.push(tv));
        assert(ls.map_values(|l: Seq<char>| truncate_line(l, maxw as nat)).take(i + 1) =~= ls.map_values(
            |l: Seq<char>| truncate_line(l, maxw as nat),
        ).take(i as int).push(tv));
        i = i + 1;
    }
    assert(ls.map_values(|l: Seq<char>| truncate_line(l, maxw as nat)).take(lines.len() as int) =~= ls.map_values(
        |l: Seq<char>| truncate_line(l, maxw as nat),
    ));
    join_lines_exec(&out)
}

/// The first `n` lines of `s`, or `s` when it has no more than `n`.
pub open spec fn first_lines(s: Seq<char>, n: nat) -> Seq<char> {
    if split_lines(s).len() <= n { s } else { join_lines(split_lines(s).take(n as int)) }
}

/// Keeps the first `n` lines of `s`.
pub fn first_lines_chars(s: &[char], n: usize) -> (r: Vec<char>)
    ensures
        r@ == first_lines(s@, n as nat),
{
    let lines = split_lines_exec(s);
    if lines.len() <= n {
        let mut r: Vec<char> = Vec::new();
        append_chars(&mut r, s);
        assert(r@ =~= s@);
        return r;
    }
    let mut kept: Vec<Vec<char>> = Vec::new();
    let mut i: usize = 0;
    while i < n
        invariant
            i <= n < lines.len(),
            lines_view(lines@) == split_lines(s@),
            lines_view(kept@) == split_lines(s@).take(i as int),
        decreases n - i,
    {
        let ghost before = lines_view(kept@);
        let mut l: Vec<char> = Vec::new();
        append_chars(&mut l, lines[i].as_slice());
        let ghost lv = l@;
        kept.push(l);
        assert(lines_view(kept@) =~= before.push(lv));
        assert(split_lines(s@).take(i + 1) =~= split_lines(s@).take(i as int).push(lv));
        i = i + 1;
    }
    join_lines_exec(&kept)
}

impl<T: TextTransform> Style<T> {
    /// `s` with tabs turned into the set tab width of spaces; unchanged
    /// when no tab width is set or it is not positive.
    pub fn maybe_convert_tabs(&self, s: &str) -> (r: String)
        ensures
            r@ == (if !self.has(TAB_WIDTH_KEY) || self.tab_width <= 0 {
                s@
            } else {
                replace_char(s@, '\t', capped_repeat(' ', self.tab_width as nat))
            }),
    {
        if !self.is_set(TAB_WIDTH_KEY) || self.tab_width <= 0 {
            return s.to_owned();
        }
        let spaces = chars_of(safe_repeat(' ', self.tab_width as usize).as_str());
        let cs = chars_of(s);
        let out = replace_char_exec(cs.as_slice(), '\t', spaces.as_slice());
        string_from_chars(out.as_slice())
    }

    /// `s` cut to the stored maximum height in lines.
    pub fn truncate_height(&self, s: &str) -> (r: String)
        ensures
            r@ == first_lines(s@, (self.max_height as usize) as nat),
    {
        let cs = chars_of(s);
        let out = first_lines_chars(cs.as_slice(), self.max_height as usize);
        string_from_chars(out.as_slice())
    }

    /// Every line of `s` cut to the stored maximum width.
    pub fn truncate_width(&self, s: &str) -> (r: String)
        ensures
            r@ == truncate_lines(s@, (self.max_width as usize) as nat),
    {
        let cs = chars_of(s);
        let out = truncate_lines_chars(cs.as_slice(), self.max_width as usize);
        string_from_chars(out.as_slice())
    }
}

impl Style<NoTransform> {
    /// A line cut to at most `maxw` cells, escape sequences kept whole.
    pub fn truncate_visible_line(s: &str, maxw: usize) -> (r: String)
        ensures
            r@ == truncate_line(s@, maxw as nat),
    {
        let cs = chars_of(s);
        let out = truncate_line_chars(cs.as_slice(), maxw);
        string_from_chars(out.as_slice())
    }

    /// A line word wrapped to `width` cells.
    pub fn word_wrap_ansi_aware(text: &str, width: usize) -> (r: Vec<String>)
        ensures
            strings_view(r@) == word_wrap(text@, width as nat),
    {
        let cs = chars_of(text);
        let lines = word_wrap_chars(cs.as_slice(), width);
        lines_to_strings(&lines)
    }

    /// A line broken into pieces of at most `width` cells.
    pub fn hard_wrap_ansi_aware(text: &str, width: usize) -> (r: Vec<String>)
        ensures
            strings_view(r@) == hard_wrap(text@, width as nat),
    {
        let cs = chars_of(text);
        let lines = hard_wrap_chars(cs.as_slice(), width);
        lines_to_strings(&lines)
    }

    /// `s` split into tokens at the break characters.
    pub fn tokenize_with_breakpoints(s: &str, break_chars: &[char]) -> (r: Vec<String>)
        ensures
            strings_view(r@) == tokens(s@, break_chars@),
    {
        let cs = chars_of(s);
        let toks = tokenize_chars(cs.as_slice(), break_chars);
        lines_to_strings(&toks)
    }
}

} // verus!
