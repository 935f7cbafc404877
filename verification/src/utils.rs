//! Measuring text in terminal cells, removing escape sequences, and the
//! CSS-style shorthand helpers for the four sides of a box.

use vstd::prelude::*;
use crate::color::TerminalColor;
use crate::strings::{chars_of, string_from_chars};
use crate::text::{
    concat, count_newlines, lemma_concat_push, lemma_split_lines_len, lines_view, split_lines,
    split_lines_exec,
};
use crate::renderer::{ColorProfileKind, Renderer};
use crate::strings::append_chars;
use crate::style::data::{Style, TextTransform};
use crate::style::equality::equivalent;
use crate::style::render::{render_text, renders_transformed, transforming};
use crate::style::stages::prepared;

verus! {

/// Display width in cells that `unicode_width` gives a string.
pub uninterp spec fn spec_display_width(s: Seq<char>) -> usize;

/// Display width in cells that `unicode_width` gives a single character
/// (`None` for control characters).
pub uninterp spec fn spec_char_width(c: char) -> Option<usize>;

/// The text that `strip_ansi_escapes` leaves of a string once escape
/// sequences and control characters are removed.
pub uninterp spec fn spec_strip_ansi(s: Seq<char>) -> Seq<char>;

/// Whether every character of `s` is printable ASCII (`' '..='~'`).
pub open spec fn is_printable_ascii(s: Seq<char>) -> bool {
    forall|i: int| 0 <= i < s.len() ==> ' ' <= #[trigger] s[i] <= '~'
}

/// Whether `s` holds no C0 or C1 control character other than `\n`.
pub open spec fn is_plain_text(s: Seq<char>) -> bool {
    forall|i: int|
        0 <= i < s.len() ==> (#[trigger] s[i] == '\n' || !(('\u{0}' <= s[i] <= '\u{1f}') || (
        '\u{80}' <= s[i] <= '\u{9f}')))
}

/// Display width of a string (`UnicodeWidthStr::width`). Escape sequences
/// are not removed first. The contract names the result and states what the
/// crate's source shows for printable ASCII: one cell per character.
#[verifier::external_body]
pub fn width(s: &str) -> (w: usize)
    ensures
        w == spec_display_width(s@),
        is_printable_ascii(s@) ==> w == s@.len(),
{
    unicode_width::UnicodeWidthStr::width(s)
}

/// Display width of one character (`UnicodeWidthChar::width`). The
/// contract names the result and states what the crate's source shows:
/// printable ASCII is one cell wide, other ASCII and C1 controls have none.
#[verifier::external_body]
pub fn char_width(c: char) -> (w: Option<usize>)
    ensures
        w == spec_char_width(c),
        ' ' <= c <= '~' ==> w == Some(1usize),
        (c < ' ' || ('\u{7f}' <= c && c < '\u{a0}')) ==> w is None,
{
    unicode_width::UnicodeWidthChar::width(c)
}

/// Removes escape sequences (`strip_ansi_escapes::strip`, read back as
/// UTF-8). The contract names the result and states what the crate's
/// source shows: text with no control character other than `\n` (and so no
/// escape character) passes through unchanged.
#[verifier::external_body]
pub fn strip_ansi(s: &str) -> (r: String)
    ensures
        r@ == spec_strip_ansi(s@),
        is_plain_text(s@) ==> r@ == s@,
{
    String::from_utf8_lossy(&strip_ansi_escapes::strip(s.as_bytes())).into_owned()
}

/// Width in cells of the visible part of a line: escape sequences removed,
/// then measured.
pub open spec fn visible_width(s: Seq<char>) -> nat {
    spec_display_width(spec_strip_ansi(s)) as nat
}

/// Visible width of a string, ignoring escape sequences.
pub fn width_visible(s: &str) -> (w: usize)
    ensures
        w == visible_width(s@),
        is_plain_text(s@) && is_printable_ascii(s@) ==> w == s@.len(),
{
    let clean = strip_ansi(s);
    width(clean.as_str())
}

/// Visible width of a line held as characters.
pub fn width_visible_chars(s: &[char]) -> (w: usize)
    ensures
        w == visible_width(s@),
        is_plain_text(s@) && is_printable_ascii(s@) ==> w == s@.len(),
{
    let st = string_from_chars(s);
    width_visible(st.as_str())
}

/// Largest visible width among the lines.
pub open spec fn max_visible_width(lines: Seq<Seq<char>>) -> nat
    decreases lines.len(),
{
    if lines.len() == 0 {
        0
    } else {
        let m = max_visible_width(lines.drop_last());
        let w = visible_width(lines.last());
        if w > m { w } else { m }
    }
}

/// Largest display width (escapes not removed) among the lines.
pub open spec fn max_display_width(lines: Seq<Seq<char>>) -> nat
    decreases lines.len(),
{
    if lines.len() == 0 {
        0
    } else {
        let m = max_display_width(lines.drop_last());
        let w = spec_display_width(lines.last()) as nat;
        if w > m { w } else { m }
    }
}

/// Largest visible width among lines held as characters.
pub fn max_width_of_lines(lines: &Vec<Vec<char>>) -> (w: usize)
    ensures
        w == max_visible_width(lines_view(lines@)),
{
    let mut m: usize = 0;
    let mut i: usize = 0;
    assert(lines_view(lines@).take(0) =~= Seq::<Seq<char>>::empty());
    while i < lines.len()
        invariant
            i <= lines.len(),
            m == max_visible_width(lines_view(lines@).take(i as int)),
        decreases lines.len() - i,
    {
        let w = width_visible_chars(lines[i].as_slice());
        assert(lines_view(lines@).take(i + 1).drop_last() =~= lines_view(lines@).take(i as int));
        if w > m {
            m = w;
        }
        i = i + 1;
    }
    assert(lines_view(lines@).take(lines.len() as int) =~= lines_view(lines@));
    m
}

/// Lines of `s` with escape sequences removed, and the largest visible width.
pub fn get_lines_visible(s: &str) -> (r: (Vec<String>, usize))
    ensures
        r.0@.len() == split_lines(s@).len(),
        forall|i: int|
            0 <= i < r.0@.len() ==> #[trigger] r.0@[i]@ == spec_strip_ansi(split_lines(s@)[i]),
        r.1 == max_visible_width(split_lines(s@)),
{
    let cs = chars_of(s);
    let lines = split_lines_exec(cs.as_slice());
    let mut out: Vec<String> = Vec::new();
    let mut i: usize = 0;
    while i < lines.len()
        invariant
            i <= lines.len(),
            lines_view(lines@) == split_lines(s@),
            out@.len() == i,
            forall|k: int|
                0 <= k < i ==> #[trigger] out@[k]@ == spec_strip_ansi(split_lines(s@)[k]),
        decreases lines.len() - i,
    {
        let l = string_from_chars(lines[i].as_slice());
        out.push(strip_ansi(l.as_str()));
        i = i + 1;
    }
    let w = max_width_of_lines(&lines);
    (out, w)
}

/// Height of a string in lines: one more than the number of newlines.
pub open spec fn spec_height(s: Seq<char>) -> nat {
    count_newlines(s) + 1
}

/// Number of lines of `s` (newlines plus one).
pub fn height(s: &str) -> (h: usize)
    ensures
        h == spec_height(s@),
        h == split_lines(s@).len(),
{
    let cs = chars_of(s);
    let lines = split_lines_exec(cs.as_slice());
    proof {
        lemma_split_lines_len(s@);
    }
    lines.len()
}

/// The lines of `s` and the largest display width among them (escape
/// sequences are measured as they are).
pub fn get_lines(s: &str) -> (r: (Vec<String>, usize))
    ensures
        r.0@.len() == split_lines(s@).len(),
        forall|i: int| 0 <= i < r.0@.len() ==> #[trigger] r.0@[i]@ == split_lines(s@)[i],
        r.1 == max_display_width(split_lines(s@)),
{
    let cs = chars_of(s);
    let lines = split_lines_exec(cs.as_slice());
    let mut out: Vec<String> = Vec::new();
    let mut m: usize = 0;
    let mut i: usize = 0;
    while i < lines.len()
        invariant
            i <= lines.len(),
            lines_view(lines@) == split_lines(s@),
            out@.len() == i,
            forall|k: int| 0 <= k < i ==> #[trigger] out@[k]@ == split_lines(s@)[k],
            m == max_display_width(split_lines(s@).take(i as int)),
        decreases lines.len() - i,
    {
        let l = string_from_chars(lines[i].as_slice());
        let w = width(l.as_str());
        assert(split_lines(s@).take(i + 1).drop_last() =~= split_lines(s@).take(i as int));
        if w > m {
            m = w;
        }
        out.push(l);
        i = i + 1;
    }
    assert(split_lines(s@).take(lines.len() as int) =~= split_lines(s@));
    (out, m)
}

/// The four sides (top, right, bottom, left) that a CSS-style shorthand of
/// one to four values names, or `None` for any other number of values.
pub open spec fn shorthand_sides<T>(v: Seq<T>) -> Option<(T, T, T, T)> {
    if v.len() == 1 {
        Some((v[0], v[0], v[0], v[0]))
    } else if v.len() == 2 {
        Some((v[0], v[1], v[0], v[1]))
    } else if v.len() == 3 {
        Some((v[0], v[1], v[2], v[1]))
    } else if v.len() == 4 {
        Some((v[0], v[1], v[2], v[3]))
    } else {
        None
    }
}

/// CSS-style shorthand for integers: `(top, right, bottom, left, ok)`;
/// zeros and `false` for any count other than one to four.
pub fn which_sides_int(values: &[i32]) -> (r: (i32, i32, i32, i32, bool))
    ensures
        match shorthand_sides(values@) {
            Some(s) => r == (s.0, s.1, s.2, s.3, true),
            None => r == (0i32, 0i32, 0i32, 0i32, false),
        },
{
    if values.len() == 1 {
        (values[0], values[0], values[0], values[0], true)
    } else if values.len() == 2 {
        (values[0], values[1], values[0], values[1], true)
    } else if values.len() == 3 {
        (values[0], values[1], values[2], values[1], true)
    } else if values.len() == 4 {
        (values[0], values[1], values[2], values[3], true)
    } else {
        (0, 0, 0, 0, false)
    }
}

/// CSS-style shorthand for booleans: `(top, right, bottom, left, ok)`;
/// all `false` for any count other than one to four.
pub fn which_sides_bool(values: &[bool]) -> (r: (bool, bool, bool, bool, bool))
    ensures
        match shorthand_sides(values@) {
            Some(s) => r == (s.0, s.1, s.2, s.3, true),
            None => r == (false, false, false, false, false),
        },
{
    if values.len() == 1 {
        (values[0], values[0], values[0], values[0], true)
    } else if values.len() == 2 {
        (values[0], values[1], values[0], values[1], true)
    } else if values.len() == 3 {
        (values[0], values[1], values[2], values[1], true)
    } else if values.len() == 4 {
        (values[0], values[1], values[2], values[3], true)
    } else {
        (false, false, false, false, false)
    }
}

/// CSS-style shorthand for colors: `(top, right, bottom, left, ok)`, each a
/// clone of the value the shorthand names; for five or more values, four
/// clones of the first and `false`. There is no default color, so at least
/// one value is needed.
pub fn which_sides_color<C: TerminalColor + Clone>(values: &[C]) -> (r: (C, C, C, C, bool))
    requires
        values@.len() > 0,
    ensures
        match shorthand_sides(values@) {
            Some(s) => cloned(s.0, r.0) && cloned(s.1, r.1) && cloned(s.2, r.2) && cloned(s.3, r.3)
                && r.4,
            None => cloned(values@[0], r.0) && cloned(values@[0], r.1) && cloned(values@[0], r.2)
                && cloned(values@[0], r.3) && !r.4,
        },
{
    if values.len() == 1 {
        (values[0].clone(), values[0].clone(), values[0].clone(), values[0].clone(), true)
    } else if values.len() == 2 {
        (values[0].clone(), values[1].clone(), values[0].clone(), values[1].clone(), true)
    } else if values.len() == 3 {
        (values[0].clone(), values[1].clone(), values[2].clone(), values[1].clone(), true)
    } else if values.len() == 4 {
        (values[0].clone(), values[1].clone(), values[2].clone(), values[3].clone(), true)
    } else {
        (values[0].clone(), values[0].clone(), values[0].clone(), values[0].clone(), false)
    }
}


/// A half-open interval `[start, end)` of character positions and the
/// style for the characters in it.
#[derive(Clone, Debug)]
pub struct Range<T> {
    pub start: usize,
    pub end: usize,
    pub style: Style<T>,
}

impl<T> Range<T> {
    /// The range `[start, end)` with `style`.
    pub fn new(start: usize, end: usize, style: Style<T>) -> (r: Self)
        ensures
            r.start == start && r.end == end && r.style == style,
    {
        Range { start, end, style }
    }
}

/// The range `[start, end)` with `style`.
pub fn new_range<T>(start: usize, end: usize, style: Style<T>) -> (r: Range<T>)
    ensures
        r.start == start && r.end == end && r.style == style,
{
    Range::new(start, end, style)
}

/// Range `r` covers position `i` of a text of `n` characters (an empty or
/// reversed range covers nothing; the part past the text is cut off).
pub open spec fn covers<T>(r: Range<T>, n: int, i: int) -> bool {
    r.start < r.end && 0 <= i < n && r.start <= i < r.end
}

/// The index of the last of the first `k` ranges that covers position `i`.
pub open spec fn owner<T>(rs: Seq<Range<T>>, k: int, n: int, i: int) -> Option<int>
    decreases k,
{
    if k <= 0 {
        None
    } else if covers(rs[k - 1], n, i) {
        Some(k - 1)
    } else {
        owner(rs, k - 1, n, i)
    }
}

/// The range whose style position `i` takes: the last that covers it.
pub open spec fn owner_of<T>(rs: Seq<Range<T>>, n: int, i: int) -> Option<int> {
    owner(rs, rs.len() as int, n, i)
}

/// Two positions are styled alike: both unstyled, or both styled and the
/// styles equivalent.
pub open spec fn same_owner<T>(rs: Seq<Range<T>>, a: Option<int>, b: Option<int>) -> bool {
    match (a, b) {
        (None, None) => true,
        (Some(x), Some(y)) => equivalent(rs[x].style, rs[y].style),
        _ => false,
    }
}

/// The end of the run that starts at `i`, scanning from `j`: the first
/// position not styled like `i`, or `n`.
pub open spec fn run_end<T>(rs: Seq<Range<T>>, n: int, i: int, j: int) -> int
    decreases n - j,
{
    if j >= n {
        n
    } else if !same_owner(rs, owner_of(rs, n, i), owner_of(rs, n, j)) {
        j
    } else {
        run_end(rs, n, i, j + 1)
    }
}

/// `starts` are the bounds of the runs of a text of `n` characters: `0`,
/// then the end of each run, the last being `n`.
pub open spec fn run_bounds<T>(rs: Seq<Range<T>>, n: int, starts: Seq<int>) -> bool {
    &&& starts.len() >= 1
    &&& starts[0] == 0
    &&& starts.last() == n
    &&& forall|k: int| 0 <= k < starts.len() - 1 ==> #[trigger] starts[k] < n
    &&& forall|k: int|
        0 <= k < starts.len() - 1 ==> #[trigger] starts[k + 1] == run_end(rs, n, starts[k], starts[k] + 1)
}

/// `out` is what applying `st` to `seg` gives: the rendered text, or, with
/// a transformation, the rendering of a text the transformation may give
/// for the prepared segment.
pub open spec fn styled_piece<T: TextTransform>(st: Style<T>, dp: ColorProfileKind, seg: Seq<char>, out: Seq<char>) -> bool {
    if transforming(st) {
        renders_transformed(st, dp, prepared(st, seg), out)
    } else {
        out == render_text(st, dp, prepared(st, seg))
    }
}

/// `out` is the output for the run `[a, b)` of `c`: the run styled by the
/// range that owns it, or unchanged when no range does.
pub open spec fn run_piece<T: TextTransform>(rs: Seq<Range<T>>, c: Seq<char>, dp: ColorProfileKind, a: int, b: int, out: Seq<char>) -> bool {
    match owner_of(rs, c.len() as int, a) {
        Some(x) => styled_piece(rs[x].style, dp, c.subrange(a, b), out),
        None => out == c.subrange(a, b),
    }
}

/// The output of styling `c` with the ranges: one piece per run.
pub open spec fn ranges_styled<T: TextTransform>(rs: Seq<Range<T>>, c: Seq<char>, dp: ColorProfileKind, out: Seq<char>) -> bool {
    exists|starts: Seq<int>, pieces: Seq<Seq<char>>|
        #![trigger run_bounds(rs, c.len() as int, starts), concat(pieces)]
        run_bounds(rs, c.len() as int, starts) && pieces.len() + 1 == starts.len() && out == concat(pieces)
            && forall|k: int|
            0 <= k < pieces.len() ==> #[trigger] run_piece(rs, c, dp, starts[k], starts[k + 1], pieces[k])
}


proof fn lemma_run_end_uncovered<T>(rs: Seq<Range<T>>, n: int, i: int, j: int)
    requires
        0 <= i < n,
        i < j,
        forall|m: int| 0 <= m < n ==> #[trigger] owner_of(rs, n, m) is None,
    ensures
        run_end(rs, n, i, j) == n,
    decreases n - j,
{
    if j < n {
        assert(owner_of(rs, n, j) is None);
        assert(owner_of(rs, n, i) is None);
        lemma_run_end_uncovered(rs, n, i, j + 1);
    }
}

/// Where no range covers any character (every range empty, reversed or
/// past the end of the text), styling by ranges gives the text back
/// unchanged.
pub proof fn law_uncovered_text_unchanged<T: TextTransform>(rs: Seq<Range<T>>, c: Seq<char>, dp: ColorProfileKind, out: Seq<char>)
    requires
        forall|i: int| 0 <= i < c.len() ==> #[trigger] owner_of(rs, c.len() as int, i) is None,
        ranges_styled(rs, c, dp, out),
    ensures
        out == c,
{
    let n = c.len() as int;
    let (starts, pieces) = choose|starts: Seq<int>, pieces: Seq<Seq<char>>|
        #![trigger run_bounds(rs, c.len() as int, starts), concat(pieces)]
        run_bounds(rs, c.len() as int, starts) && pieces.len() + 1 == starts.len() && out == concat(pieces)
            && forall|k: int|
            0 <= k < pieces.len() ==> #[trigger] run_piece(rs, c, dp, starts[k], starts[k + 1], pieces[k]);
    if n == 0 {
        assert(pieces.len() == 0);
        assert(c =~= Seq::<char>::empty());
    } else {
        if starts.len() == 1 {
            assert(starts.last() == starts[0]);
        }
        lemma_run_end_uncovered(rs, n, 0, 1);
        assert(starts[0int + 1] == run_end(rs, n, starts[0], starts[0] + 1));
        assert(starts[1] == n);
        if starts.len() > 2 {
            assert(starts[1] < n);
        }
        assert(pieces.len() == 1);
        assert(run_piece(rs, c, dp, starts[0], starts[1], pieces[0]));
        assert(owner_of(rs, n, 0) is None);
        assert(c.subrange(0, n) =~= c);
        assert(pieces.drop_last() =~= Seq::<Seq<char>>::empty());
        assert(concat(pieces.drop_last()) =~= Seq::<char>::empty());
        assert(pieces.last() == pieces[0]);
        assert(concat(pieces) =~= pieces[0]);
    }
}

/// An owner index as an integer.
pub open spec fn slot(o: Option<usize>) -> Option<int> {
    match o {
        Some(x) => Some(x as int),
        None => None,
    }
}

/// The characters `c[a..b]`.
fn sub_chars(c: &[char], a: usize, b: usize) -> (r: Vec<char>)
    requires
        a <= b <= c@.len(),
    ensures
        r@ == c@.subrange(a as int, b as int),
{
    let mut r: Vec<char> = Vec::new();
    let mut i: usize = a;
    while i < b
        invariant
            a <= i <= b <= c@.len(),
            r@ == c@.subrange(a as int, i as int),
        decreases b - i,
    {
        r.push(c[i]);
        i = i + 1;
        assert(r@ =~= c@.subrange(a as int, i as int));
    }
    r
}

/// Whether two owner slots are styled alike.
fn same_slot<T: TextTransform>(ranges: &[Range<T>], a: Option<usize>, b: Option<usize>) -> (r: bool)
    requires
        a matches Some(x) ==> x < ranges@.len(),
        b matches Some(y) ==> y < ranges@.len(),
    ensures
        r == same_owner(ranges@, slot(a), slot(b)),
{
    match (a, b) {
        (None, None) => true,
        (Some(x), Some(y)) => ranges[x].style.is_equivalent(&ranges[y].style),
        _ => false,
    }
}

/// For each position of a text of `n` characters, the last range that
/// covers it.
fn owner_map<T>(ranges: &[Range<T>], n: usize) -> (map: Vec<Option<usize>>)
    ensures
        map@.len() == n,
        forall|m: int| 0 <= m < n ==> slot(#[trigger] map@[m]) == owner_of(ranges@, n as int, m),
        forall|m: int| 0 <= m < n ==> (#[trigger] map@[m] matches Some(x) ==> x < ranges@.len()),
{
    let mut map: Vec<Option<usize>> = Vec::new();
    let mut i: usize = 0;
    while i < n
        invariant
            i <= n,
            map@.len() == i,
            forall|m: int| 0 <= m < i ==> #[trigger] map@[m] is None,
        decreases n - i,
    {
        map.push(None);
        i = i + 1;
    }
    let mut k: usize = 0;
    while k < ranges.len()
        invariant
            k <= ranges@.len(),
            map@.len() == n,
            forall|m: int| 0 <= m < n ==> slot(#[trigger] map@[m]) == owner(ranges@, k as int, n as int, m),
            forall|m: int| 0 <= m < n ==> (#[trigger] map@[m] matches Some(x) ==> x < k),
        decreases ranges@.len() - k,
    {
        let start = ranges[k].start;
        let end = ranges[k].end;
        if start < end && start < n {
            let stop: usize = if end < n { end } else { n };
            let mut t: usize = start;
            while t < stop
                invariant
                    start <= t <= stop <= n,
                    stop == (if end < n { end } else { n }),
                    k < ranges@.len(),
                    start == ranges@[k as int].start,
                    end == ranges@[k as int].end,
                    start < end,
                    map@.len() == n,
                    forall|m: int|
                        0 <= m < n ==> slot(#[trigger] map@[m]) == (if start <= m < t {
                            Some(k as int)
                        } else {
                            owner(ranges@, k as int, n as int, m)
                        }),
                    forall|m: int| 0 <= m < n ==> (#[trigger] map@[m] matches Some(x) ==> x <= k),
                decreases stop - t,
            {
                map.set(t, Some(k));
                t = t + 1;
            }
        }
        k = k + 1;
    }
    map
}

/// Styles the characters of `s` range by range. Each position takes the
/// style of the last range that covers it; runs of positions styled alike
/// are rendered together (with `default` deciding the color profile of a
/// style without a renderer), and positions no range covers are kept.
pub fn style_ranges<T: TextTransform>(default: &Renderer, s: &str, ranges: &[Range<T>]) -> (out: String)
    requires
        forall|k: int| 0 <= k < ranges@.len() ==> (#[trigger] ranges@[k]).style.wf() && ranges@[k].style.accepts_any_text(),
    ensures
        ranges_styled(ranges@, s@, default.spec_color_profile(), out@),
{
    let c = chars_of(s);
    let n = c.len();
    let map = owner_map(ranges, n);
    let ghost rs = ranges@;
    let ghost dp = default.spec_color_profile();
    let mut out: Vec<char> = Vec::new();
    let ghost mut starts: Seq<int> = seq![0int];
    let ghost mut pieces: Seq<Seq<char>> = Seq::empty();
    let mut i: usize = 0;
    while i < n
        invariant
            i <= n == c@.len(),
            c@ == s@,
            rs == ranges@,
            dp == default.spec_color_profile(),
            forall|k: int| 0 <= k < ranges@.len() ==> (#[trigger] ranges@[k]).style.wf() && ranges@[k].style.accepts_any_text(),
            map@.len() == n,
            forall|m: int| 0 <= m < n ==> slot(#[trigger] map@[m]) == owner_of(rs, n as int, m),
            forall|m: int| 0 <= m < n ==> (#[trigger] map@[m] matches Some(x) ==> x < ranges@.len()),
            starts.len() == pieces.len() + 1,
            starts[0] == 0,
            starts.last() == i,
            forall|k: int| 0 <= k < starts.len() - 1 ==> #[trigger] starts[k] < i,
            forall|k: int|
                0 <= k < starts.len() - 1 ==> #[trigger] starts[k + 1] == run_end(rs, n as int, starts[k], starts[k] + 1),
            out@ == concat(pieces),
            forall|k: int|
                0 <= k < pieces.len() ==> #[trigger] run_piece(rs, c@, dp, starts[k], starts[k + 1], pieces[k]),
        decreases n - i,
    {
        let mut j: usize = i + 1;
        while j < n && same_slot(ranges, map[i], map[j])
            invariant
                i < j <= n,
                n == map@.len(),
                forall|m: int| 0 <= m < n ==> slot(#[trigger] map@[m]) == owner_of(rs, n as int, m),
                forall|m: int| 0 <= m < n ==> (#[trigger] map@[m] matches Some(x) ==> x < ranges@.len()),
                rs == ranges@,
                run_end(rs, n as int, i as int, i + 1) == run_end(rs, n as int, i as int, j as int),
            decreases n - j,
        {
            j = j + 1;
        }
        let seg = sub_chars(c.as_slice(), i, j);
        let piece: Vec<char> = match map[i] {
            Some(x) => {
                let styled = ranges[x].style.apply(default, string_from_chars(seg.as_slice()).as_str());
                chars_of(styled.as_str())
            },
            None => seg,
        };
        proof {
            lemma_concat_push(pieces, piece@);
            let old_starts = starts;
            let old_pieces = pieces;
            starts = starts.push(j as int);
            pieces = pieces.push(piece@);
            assert forall|k: int| 0 <= k < starts.len() - 1 implies #[trigger] starts[k] < j by {
                if k < old_starts.len() - 1 {
                    assert(starts[k] == old_starts[k]);
                }
            }
            assert forall|k: int| 0 <= k < starts.len() - 1 implies #[trigger] starts[k + 1] == run_end(
                rs,
                n as int,
                starts[k],
                starts[k] + 1,
            ) by {
                if k < old_starts.len() - 1 {
                    assert(starts[k + 1] == old_starts[k + 1]);
                    assert(starts[k] == old_starts[k]);
                }
            }
            assert forall|k: int| 0 <= k < pieces.len() implies #[trigger] run_piece(
                rs,
                c@,
                dp,
                starts[k],
                starts[k + 1],
                pieces[k],
            ) by {
                if k < old_pieces.len() {
                    assert(starts[k + 1] == old_starts[k + 1]);
                    assert(starts[k] == old_starts[k]);
                    assert(pieces[k] == old_pieces[k]);
                }
            }
        }
        append_chars(&mut out, piece.as_slice());
        i = j;
    }
    proof {
        assert(run_bounds(rs, s@.len() as int, starts));
        assert(out@ == concat(pieces));
    }
    string_from_chars(out.as_slice())
}

/// Whether `i` is one of `indices`.
fn has_index(indices: &[usize], i: usize) -> (r: bool)
    ensures
        r == indices@.contains(i),
{
    let mut k: usize = 0;
    while k < indices.len()
        invariant
            k <= indices@.len(),
            forall|m: int| 0 <= m < k ==> indices@[m] != i,
        decreases indices@.len() - k,
    {
        if indices[k] == i {
            return true;
        }
        k = k + 1;
    }
    false
}

/// Styles each character of `s` on its own: with `matched` where its
/// position is one of `indices`, else with `unmatched` (`default` decides
/// the color profile of a style without a renderer).
pub fn style_runes<T: TextTransform, U: TextTransform>(
    default: &Renderer,
    s: &str,
    indices: &[usize],
    matched: Style<T>,
    unmatched: Style<U>,
) -> (out: String)
    requires
        matched.wf(),
        matched.accepts_any_text(),
        unmatched.wf(),
        unmatched.accepts_any_text(),
    ensures
        exists|pieces: Seq<Seq<char>>|
            #![trigger concat(pieces)]
            pieces.len() == s@.len() && out@ == concat(pieces) && forall|i: int|
                0 <= i < s@.len() ==> if indices@.contains(i as usize) {
                    styled_piece(matched, default.spec_color_profile(), seq![s@[i]], #[trigger] pieces[i])
                } else {
                    styled_piece(unmatched, default.spec_color_profile(), seq![s@[i]], pieces[i])
                },
{
    let c = chars_of(s);
    let ghost dp = default.spec_color_profile();
    let mut out: Vec<char> = Vec::new();
    let ghost mut pieces: Seq<Seq<char>> = Seq::empty();
    let mut i: usize = 0;
    while i < c.len()
        invariant
            i <= c@.len(),
            c@ == s@,
            dp == default.spec_color_profile(),
            matched.wf(),
            matched.accepts_any_text(),
            unmatched.wf(),
            unmatched.accepts_any_text(),
            pieces.len() == i,
            out@ == concat(pieces),
            forall|k: int|
                0 <= k < i ==> if indices@.contains(k as usize) {
                    styled_piece(matched, dp, seq![s@[k]], #[trigger] pieces[k])
                } else {
                    styled_piece(unmatched, dp, seq![s@[k]], pieces[k])
                },
        decreases c@.len() - i,
    {
        let one: Vec<char> = vec![c[i]];
        let seg = string_from_chars(one.as_slice());
        assert(one@ =~= seq![s@[i as int]]);
        let styled = if has_index(indices, i) {
            matched.apply(default, seg.as_str())
        } else {
            unmatched.apply(default, seg.as_str())
        };
        let piece = chars_of(styled.as_str());
        proof {
            lemma_concat_push(pieces, piece@);
            let old_pieces = pieces;
            pieces = pieces.push(piece@);
            assert forall|k: int| 0 <= k < i + 1 implies if indices@.contains(k as usize) {
                styled_piece(matched, dp, seq![s@[k]], #[trigger] pieces[k])
            } else {
                styled_piece(unmatched, dp, seq![s@[k]], pieces[k])
            } by {
                if k < i {
                    assert(pieces[k] == old_pieces[k]);
                }
            }
        }
        append_chars(&mut out, piece.as_slice());
        i = i + 1;
    }
    string_from_chars(out.as_slice())
}


/// Same as `new_range`.
#[allow(non_snake_case)]
pub fn NewRange<T>(start: usize, end: usize, style: Style<T>) -> (r: Range<T>)
    ensures
        r.start == start && r.end == end && r.style == style,
{
    new_range(start, end, style)
}

/// Same as `style_ranges`.
#[allow(non_snake_case)]
pub fn StyleRanges<T: TextTransform>(default: &Renderer, s: &str, ranges: &[Range<T>]) -> (out: String)
    requires
        forall|k: int| 0 <= k < ranges@.len() ==> (#[trigger] ranges@[k]).style.wf() && ranges@[k].style.accepts_any_text(),
    ensures
        ranges_styled(ranges@, s@, default.spec_color_profile(), out@),
{
    style_ranges(default, s, ranges)
}

/// Same as `style_runes`.
#[allow(non_snake_case)]
pub fn StyleRunes<T: TextTransform, U: TextTransform>(
    default: &Renderer,
    s: &str,
    indices: &[usize],
    matched: Style<T>,
    unmatched: Style<U>,
) -> (out: String)
    requires
        matched.wf(),
        matched.accepts_any_text(),
        unmatched.wf(),
        unmatched.accepts_any_text(),
    ensures
        exists|pieces: Seq<Seq<char>>|
            #![trigger concat(pieces)]
            pieces.len() == s@.len() && out@ == concat(pieces) && forall|i: int|
                0 <= i < s@.len() ==> if indices@.contains(i as usize) {
                    styled_piece(matched, default.spec_color_profile(), seq![s@[i]], #[trigger] pieces[i])
                } else {
                    styled_piece(unmatched, default.spec_color_profile(), seq![s@[i]], pieces[i])
                },
{
    style_runes(default, s, indices, matched, unmatched)
}

} // verus!
