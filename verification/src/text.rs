//! Lines of text as sequences of characters: splitting on `\n`, joining,
//! and counting.

use vstd::prelude::*;

verus! {

/// The lines of `s`, split at every `\n` (`str::split('\n')`); there is
/// always at least one line.
pub open spec fn split_lines(s: Seq<char>) -> Seq<Seq<char>>
    decreases s.len(),
{
    if s.len() == 0 {
        seq![Seq::<char>::empty()]
    } else {
        let prev = split_lines(s.drop_last());
        if s.last() == '\n' {
            prev.push(Seq::<char>::empty())
        } else {
            prev.update(prev.len() - 1, prev.last().push(s.last()))
        }
    }
}

/// The lines joined with `\n` between them (`join("\n")`).
pub open spec fn join_lines(lines: Seq<Seq<char>>) -> Seq<char>
    decreases lines.len(),
{
    if lines.len() == 0 {
        Seq::<char>::empty()
    } else if lines.len() == 1 {
        lines[0]
    } else {
        join_lines(lines.drop_last()).push('\n') + lines.last()
    }
}

/// Number of `\n` characters in `s`.
pub open spec fn count_newlines(s: Seq<char>) -> nat
    decreases s.len(),
{
    if s.len() == 0 {
        0
    } else {
        count_newlines(s.drop_last()) + if s.last() == '\n' { 1nat } else { 0nat }
    }
}

/// There is one more line than there are newlines.
pub proof fn lemma_split_lines_len(s: Seq<char>)
    ensures
        split_lines(s).len() == count_newlines(s) + 1,
    decreases s.len(),
{
    if s.len() > 0 {
        lemma_split_lines_len(s.drop_last());
    }
}

/// No line holds a newline.
pub proof fn lemma_split_lines_no_newline(s: Seq<char>)
    ensures
        forall|i: int, j: int|
            0 <= i < split_lines(s).len() && 0 <= j < split_lines(s)[i].len()
                ==> #[trigger] split_lines(s)[i][j] != '\n',
    decreases s.len(),
{
    if s.len() > 0 {
        lemma_split_lines_no_newline(s.drop_last());
        lemma_split_lines_len(s.drop_last());
        let prev = split_lines(s.drop_last());
        if s.last() != '\n' {
            assert forall|i: int, j: int|
                0 <= i < split_lines(s).len() && 0 <= j < split_lines(s)[i].len()
                    implies #[trigger] split_lines(s)[i][j] != '\n' by {
                if i == prev.len() - 1 {
                    if j < prev.last().len() {
                        assert(split_lines(s)[i][j] == prev[i][j]);
                    }
                } else {
                    assert(split_lines(s)[i] == prev[i]);
                }
            }
        } else {
            assert forall|i: int, j: int|
                0 <= i < split_lines(s).len() && 0 <= j < split_lines(s)[i].len()
                    implies #[trigger] split_lines(s)[i][j] != '\n' by {
                if i < prev.len() {
                    assert(split_lines(s)[i] == prev[i]);
                }
            }
        }
    }
}

/// Joining the lines of `s` with `\n` gives back `s`.
pub proof fn lemma_join_split(s: Seq<char>)
    ensures
        join_lines(split_lines(s)) == s,
    decreases s.len(),
{
    if s.len() > 0 {
        let p = s.drop_last();
        lemma_join_split(p);
        lemma_split_lines_len(p);
        let prev = split_lines(p);
        if s.last() == '\n' {
            let cur = prev.push(Seq::<char>::empty());
            assert(cur.drop_last() =~= prev);
            assert(join_lines(cur) =~= s);
        } else {
            lemma_join_update_last(prev, prev.last().push(s.last()));
            lemma_join_ends_with_last(prev);
            let k = p.len() - prev.last().len();
            assert(p =~= p.subrange(0, k) + prev.last());
            assert(join_lines(split_lines(s)) =~= p.subrange(0, k) + prev.last().push(s.last()));
            assert(s =~= p.push(s.last()));
            assert(join_lines(split_lines(s)) =~= s);
        }
    } else {
        assert(join_lines(split_lines(s)) =~= s);
    }
}

/// Text without a newline appended to `s` extends its last line.
pub proof fn lemma_split_append(s: Seq<char>, t: Seq<char>)
    requires
        forall|k: int| 0 <= k < t.len() ==> #[trigger] t[k] != '\n',
    ensures
        split_lines(s + t) == split_lines(s).update(
            split_lines(s).len() - 1,
            split_lines(s).last() + t,
        ),
    decreases t.len(),
{
    lemma_split_lines_len(s);
    let ls = split_lines(s);
    if t.len() == 0 {
        assert(s + t =~= s);
        assert(ls.last() + t =~= ls.last());
        assert(ls.update(ls.len() - 1, ls.last() + t) =~= ls);
    } else {
        let t0 = t.drop_last();
        let c = t.last();
        assert(c == t[t.len() - 1]);
        lemma_split_append(s, t0);
        assert((s + t).drop_last() =~= s + t0);
        assert((s + t).last() == c);
        let prev = split_lines(s + t0);
        assert(prev.len() == ls.len());
        assert(prev.last() == ls.last() + t0);
        assert((ls.last() + t0).push(c) =~= ls.last() + t);
        assert(c != '\n');
        assert(prev.update(prev.len() - 1, prev.last().push(c)) =~= ls.update(ls.len() - 1, ls.last() + t));
    }
}

/// Splitting lines that were joined gives them back, when none of them
/// holds a newline.
pub proof fn lemma_split_join(lines: Seq<Seq<char>>)
    requires
        lines.len() >= 1,
        forall|i: int, j: int| 0 <= i < lines.len() && 0 <= j < lines[i].len() ==> #[trigger] lines[i][j] != '\n',
    ensures
        split_lines(join_lines(lines)) == lines,
    decreases lines.len(),
{
    let l = lines.last();
    assert forall|k: int| 0 <= k < l.len() implies #[trigger] l[k] != '\n' by {
        assert(l[k] == lines[lines.len() - 1][k]);
    }
    if lines.len() == 1 {
        let e = Seq::<char>::empty();
        lemma_split_append(e, l);
        assert(e + l =~= l);
        assert(split_lines(e) == seq![e]);
        assert(seq![e].update(0, e + l) =~= lines);
    } else {
        let init = lines.drop_last();
        assert forall|i: int, j: int| 0 <= i < init.len() && 0 <= j < init[i].len() implies #[trigger] init[i][j] != '\n' by {
            assert(init[i] == lines[i]);
        }
        lemma_split_join(init);
        let a = join_lines(init).push('\n');
        assert(a.drop_last() =~= join_lines(init));
        assert(split_lines(a) == init.push(Seq::<char>::empty()));
        lemma_split_append(a, l);
        assert(init.push(Seq::<char>::empty()).update(init.len() as int, Seq::<char>::empty() + l) =~= lines);
    }
}

/// Replacing the last line only changes the tail of the joined text.
pub proof fn lemma_join_update_last(lines: Seq<Seq<char>>, l: Seq<char>)
    requires
        lines.len() > 0,
    ensures
        join_lines(lines.update(lines.len() - 1, l))
            == join_lines(lines).subrange(0, join_lines(lines).len() - lines.last().len()) + l,
    decreases lines.len(),
{
    lemma_join_ends_with_last(lines);
    let u = lines.update(lines.len() - 1, l);
    if lines.len() == 1 {
        assert(join_lines(u) =~= join_lines(lines).subrange(0, join_lines(lines).len() - lines.last().len()) + l);
    } else {
        assert(u.drop_last() =~= lines.drop_last());
        assert(join_lines(u) =~= join_lines(lines).subrange(0, join_lines(lines).len() - lines.last().len()) + l);
    }
}

/// The joined text ends with the last line.
pub proof fn lemma_join_ends_with_last(lines: Seq<Seq<char>>)
    requires
        lines.len() > 0,
    ensures
        join_lines(lines).len() >= lines.last().len(),
        join_lines(lines).subrange(
            join_lines(lines).len() - lines.last().len(),
            join_lines(lines).len() as int,
        ) == lines.last(),
{
    let j = join_lines(lines);
    if lines.len() == 1 {
        assert(j.subrange(0, j.len() as int) =~= j);
    } else {
        assert(j.subrange(j.len() - lines.last().len(), j.len() as int) =~= lines.last());
    }
}


/// Newlines of a concatenation add up.
pub proof fn lemma_count_newlines_concat(a: Seq<char>, b: Seq<char>)
    ensures
        count_newlines(a + b) == count_newlines(a) + count_newlines(b),
    decreases b.len(),
{
    if b.len() > 0 {
        lemma_count_newlines_concat(a, b.drop_last());
        assert((a + b).drop_last() =~= a + b.drop_last());
        assert((a + b).last() == b.last());
    } else {
        assert(a + b =~= a);
    }
}

/// Joining lines that hold no newline adds one newline between each two.
pub proof fn lemma_join_count_newlines(lines: Seq<Seq<char>>)
    requires
        lines.len() >= 1,
        forall|i: int, j: int| 0 <= i < lines.len() && 0 <= j < lines[i].len() ==> #[trigger] lines[i][j] != '\n',
    ensures
        count_newlines(join_lines(lines)) == lines.len() - 1,
    decreases lines.len(),
{
    if lines.len() == 1 {
        lemma_no_newline_count(lines[0]);
    } else {
        let init = lines.drop_last();
        assert forall|i: int, j: int| 0 <= i < init.len() && 0 <= j < init[i].len() implies #[trigger] init[i][j] != '\n' by {
            assert(init[i] == lines[i]);
        }
        lemma_join_count_newlines(init);
        lemma_count_newlines_concat(join_lines(init).push('\n'), lines.last());
        assert(join_lines(init).push('\n').drop_last() =~= join_lines(init));
        assert forall|j: int| 0 <= j < lines.last().len() implies #[trigger] lines.last()[j] != '\n' by {
            assert(lines.last()[j] == lines[lines.len() - 1][j]);
        }
        lemma_no_newline_count(lines.last());
    }
}

/// A text with no newline counts none.
pub proof fn lemma_no_newline_count(s: Seq<char>)
    requires
        forall|j: int| 0 <= j < s.len() ==> #[trigger] s[j] != '\n',
    ensures
        count_newlines(s) == 0,
    decreases s.len(),
{
    if s.len() > 0 {
        assert forall|j: int| 0 <= j < s.drop_last().len() implies #[trigger] s.drop_last()[j] != '\n' by {
            assert(s.drop_last()[j] == s[j]);
        }
        lemma_no_newline_count(s.drop_last());
        assert(s.last() == s[s.len() - 1]);
    }
}

/// The first `n` lines joined are a prefix of all the lines joined.
pub proof fn lemma_join_take_prefix(lines: Seq<Seq<char>>, n: int)
    requires
        0 <= n <= lines.len(),
    ensures
        join_lines(lines.take(n)).len() <= join_lines(lines).len(),
        join_lines(lines).take(join_lines(lines.take(n)).len() as int) == join_lines(lines.take(n)),
    decreases lines.len(),
{
    let j = join_lines(lines);
    if n == lines.len() {
        assert(lines.take(n) =~= lines);
        assert(j.take(j.len() as int) =~= j);
    } else if n == 0 {
        assert(lines.take(0) =~= Seq::<Seq<char>>::empty());
        assert(j.take(0) =~= Seq::<char>::empty());
    } else {
        let init = lines.drop_last();
        lemma_join_take_prefix(init, n);
        assert(init.take(n) =~= lines.take(n));
        let ji = join_lines(init);
        let p = join_lines(lines.take(n));
        if lines.len() > 1 {
            assert(j =~= ji.push('\n') + lines.last());
            assert(j.take(p.len() as int) =~= ji.take(p.len() as int));
        }
    }
}

/// The characters of each line held in `v`.
pub open spec fn lines_view(v: Seq<Vec<char>>) -> Seq<Seq<char>> {
    v.map_values(|l: Vec<char>| l@)
}

/// Splits a string into its lines, as characters.
pub fn split_lines_exec(s: &[char]) -> (r: Vec<Vec<char>>)
    ensures
        lines_view(r@) == split_lines(s@),
        r.len() >= 1,
{
    let mut r: Vec<Vec<char>> = Vec::new();
    r.push(Vec::new());
    let mut i: usize = 0;
    assert(s@.take(0) =~= Seq::<char>::empty());
    assert(lines_view(r@) =~= split_lines(s@.take(0)));
    while i < s.len()
        invariant
            i <= s.len(),
            r.len() >= 1,
            lines_view(r@) == split_lines(s@.take(i as int)),
        decreases s.len() - i,
    {
        let c = s[i];
        let ghost prev = lines_view(r@);
        assert(s@.take(i + 1).drop_last() =~= s@.take(i as int));
        assert(s@.take(i + 1).last() == c);
        if c == '\n' {
            r.push(Vec::new());
            assert(lines_view(r@) =~= prev.push(Seq::<char>::empty()));
        } else {
            let last = r.len() - 1;
            let mut l = r.pop().unwrap();
            l.push(c);
            r.push(l);
            assert(lines_view(r@) =~= prev.update(prev.len() - 1, prev.last().push(c)));
        }
        i = i + 1;
    }
    assert(s@.take(s.len() as int) =~= s@);
    r
}

/// Joins lines with `\n` between them.
pub fn join_lines_exec(lines: &Vec<Vec<char>>) -> (r: Vec<char>)
    ensures
        r@ == join_lines(lines_view(lines@)),
{
    let mut r: Vec<char> = Vec::new();
    let mut i: usize = 0;
    assert(lines_view(lines@).take(0) =~= Seq::<Seq<char>>::empty());
    while i < lines.len()
        invariant
            i <= lines.len(),
            r@ == join_lines(lines_view(lines@).take(i as int)),
        decreases lines.len() - i,
    {
        let ghost before = lines_view(lines@).take(i as int);
        let ghost after = lines_view(lines@).take(i + 1);
        assert(after.drop_last() =~= before);
        assert(after.last() == lines[i as int]@);
        if i > 0 {
            r.push('\n');
        }
        let mut k: usize = 0;
        let ghost r0 = r@;
        while k < lines[i].len()
            invariant
                i < lines.len(),
                k <= lines[i as int].len(),
                r@ == r0 + lines[i as int]@.take(k as int),
            decreases lines[i as int].len() - k,
        {
            r.push(lines[i][k]);
            k = k + 1;
            assert(r@ =~= r0 + lines[i as int]@.take(k as int));
        }
        assert(lines[i as int]@.take(k as int) =~= lines[i as int]@);
        i = i + 1;
    }
    assert(lines_view(lines@).take(lines.len() as int) =~= lines_view(lines@));
    r
}

/// The lines concatenated, without separators.
pub open spec fn concat(ls: Seq<Seq<char>>) -> Seq<char>
    decreases ls.len(),
{
    if ls.len() == 0 {
        Seq::<char>::empty()
    } else {
        concat(ls.drop_last()) + ls.last()
    }
}

/// Concatenating one more piece appends it.
pub proof fn lemma_concat_push(ls: Seq<Seq<char>>, x: Seq<char>)
    ensures
        concat(ls.push(x)) == concat(ls) + x,
{
    assert(ls.push(x).drop_last() =~= ls);
}

} // verus!
