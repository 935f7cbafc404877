//! Border styles: the characters drawn on each edge and corner of a box.

use vstd::prelude::*;
use crate::utils::{char_width, spec_char_width};
use crate::strings::chars_of;

verus! {

/// The strings drawn on each edge, corner and joint of a bordered box.
#[derive(Debug, Clone, Copy, PartialEq, Eq)]
pub struct Border {
    pub top: &'static str,
    pub bottom: &'static str,
    pub left: &'static str,
    pub right: &'static str,
    pub top_left: &'static str,
    pub top_right: &'static str,
    pub bottom_left: &'static str,
    pub bottom_right: &'static str,
    pub middle_left: &'static str,
    pub middle_right: &'static str,
    pub middle: &'static str,
    pub middle_top: &'static str,
    pub middle_bottom: &'static str,
}

/// The thirteen parts of a border, in field order.
pub open spec fn border_parts(b: Border) -> Seq<Seq<char>> {
    seq![b.top@, b.bottom@, b.left@, b.right@, b.top_left@, b.top_right@, b.bottom_left@, b.bottom_right@, b.middle_left@, b.middle_right@, b.middle@, b.middle_top@, b.middle_bottom@]
}

impl Border {
    /// A border made of the given parts.
    #[allow(clippy::too_many_arguments)]
    pub fn new(
        top: &'static str,
        bottom: &'static str,
        left: &'static str,
        right: &'static str,
        top_left: &'static str,
        top_right: &'static str,
        bottom_left: &'static str,
        bottom_right: &'static str,
        middle_left: &'static str,
        middle_right: &'static str,
        middle: &'static str,
        middle_top: &'static str,
        middle_bottom: &'static str,
    ) -> (b: Self)
        ensures
            b.top == top,
            b.bottom == bottom,
            b.left == left,
            b.right == right,
            b.top_left == top_left,
            b.top_right == top_right,
            b.bottom_left == bottom_left,
            b.bottom_right == bottom_right,
            b.middle_left == middle_left,
            b.middle_right == middle_right,
            b.middle == middle,
            b.middle_top == middle_top,
            b.middle_bottom == middle_bottom,
    {
        Border { top, bottom, left, right, top_left, top_right, bottom_left, bottom_right, middle_left, middle_right, middle, middle_top, middle_bottom }
    }

    /// Cell width of the top edge: the widest character among the top-left
    /// corner, the top edge and the top-right corner.
    pub fn get_top_size(&self) -> (w: usize)
        ensures
            w == edge_width(self.top_left@, self.top@, self.top_right@),
    {
        get_border_edge_width(self.top_left, self.top, self.top_right)
    }

    /// Cell width of the right edge.
    pub fn get_right_size(&self) -> (w: usize)
        ensures
            w == edge_width(self.top_right@, self.right@, self.bottom_right@),
    {
        get_border_edge_width(self.top_right, self.right, self.bottom_right)
    }

    /// Cell width of the bottom edge.
    pub fn get_bottom_size(&self) -> (w: usize)
        ensures
            w == edge_width(self.bottom_left@, self.bottom@, self.bottom_right@),
    {
        get_border_edge_width(self.bottom_left, self.bottom, self.bottom_right)
    }

    /// Cell width of the left edge.
    pub fn get_left_size(&self) -> (w: usize)
        ensures
            w == edge_width(self.top_left@, self.left@, self.bottom_left@),
    {
        get_border_edge_width(self.top_left, self.left, self.bottom_left)
    }
}

/// Width of a character in cells, control characters counting as zero.
pub open spec fn cell_width(c: char) -> nat {
    match spec_char_width(c) {
        Some(w) => w as nat,
        None => 0,
    }
}

/// The widest character of `s`, in cells (zero for an empty string).
pub open spec fn max_rune_width(s: Seq<char>) -> nat
    decreases s.len(),
{
    if s.len() == 0 {
        0
    } else {
        let m = max_rune_width(s.drop_last());
        let w = cell_width(s.last());
        if w > m { w } else { m }
    }
}

/// Width of a border edge made of three parts: the widest character among them.
pub open spec fn edge_width(a: Seq<char>, b: Seq<char>, c: Seq<char>) -> nat {
    let x = max_rune_width(a);
    let y = max_rune_width(b);
    let z = max_rune_width(c);
    let m = if x > y { x } else { y };
    if m > z { m } else { z }
}


/// The widest character of a string bounds every character's width and is
/// the width of one of them (zero for an empty string).
pub proof fn law_max_rune_width(s: Seq<char>)
    ensures
        forall|i: int| 0 <= i < s.len() ==> cell_width(#[trigger] s[i]) <= max_rune_width(s),
        s.len() == 0 ==> max_rune_width(s) == 0,
        s.len() > 0 ==> exists|i: int| 0 <= i < s.len() && cell_width(#[trigger] s[i]) == max_rune_width(s),
    decreases s.len(),
{
    if s.len() > 0 {
        let p = s.drop_last();
        law_max_rune_width(p);
        assert forall|i: int| 0 <= i < s.len() implies cell_width(#[trigger] s[i]) <= max_rune_width(s) by {
            if i < p.len() {
                assert(s[i] == p[i]);
            }
        }
        if cell_width(s.last()) > max_rune_width(p) || p.len() == 0 {
            assert(cell_width(s[s.len() - 1]) == max_rune_width(s));
        } else {
            let i = choose|i: int| 0 <= i < p.len() && cell_width(#[trigger] p[i]) == max_rune_width(p);
            assert(s[i] == p[i]);
        }
    }
}

/// An edge is as wide as the widest character of its three parts.
pub proof fn law_edge_width(a: Seq<char>, b: Seq<char>, c: Seq<char>)
    ensures
        edge_width(a, b, c) == vstd::math::max(
            vstd::math::max(max_rune_width(a) as int, max_rune_width(b) as int),
            max_rune_width(c) as int,
        ),
        forall|i: int| 0 <= i < a.len() ==> cell_width(#[trigger] a[i]) <= edge_width(a, b, c),
        forall|i: int| 0 <= i < b.len() ==> cell_width(#[trigger] b[i]) <= edge_width(a, b, c),
        forall|i: int| 0 <= i < c.len() ==> cell_width(#[trigger] c[i]) <= edge_width(a, b, c),
{
    law_max_rune_width(a);
    law_max_rune_width(b);
    law_max_rune_width(c);
}

/// The widest character of `s`, in cells.
fn max_rune_width_exec(s: &str) -> (w: usize)
    ensures
        w == max_rune_width(s@),
{
    let cs = chars_of(s);
    let mut m: usize = 0;
    let mut i: usize = 0;
    assert(cs@.take(0) =~= Seq::<char>::empty());
    while i < cs.len()
        invariant
            i <= cs.len(),
            cs@ == s@,
            m == max_rune_width(cs@.take(i as int)),
        decreases cs.len() - i,
    {
        let w = match char_width(cs[i]) {
            Some(w) => w,
            None => 0,
        };
        assert(cs@.take(i + 1).drop_last() =~= cs@.take(i as int));
        if w > m {
            m = w;
        }
        i = i + 1;
    }
    assert(cs@.take(cs.len() as int) =~= cs@);
    m
}

/// Width of an edge made of three parts.
fn get_border_edge_width(a: &str, b: &str, c: &str) -> (w: usize)
    ensures
        w == edge_width(a@, b@, c@),
{
    let x = max_rune_width_exec(a);
    let y = max_rune_width_exec(b);
    let z = max_rune_width_exec(c);
    let m = if x > y { x } else { y };
    if m > z { m } else { z }
}

/// Standard single-line box drawing.
pub fn normal_border() -> (b: Border)
    ensures
        border_parts(b) == seq![seq!['─'], seq!['─'], seq!['│'], seq!['│'], seq!['┌'], seq!['┐'], seq!['└'], seq!['┘'], seq!['├'], seq!['┤'], seq!['┼'], seq!['┬'], seq!['┴']],
{
    let b = Border::new("─", "─", "│", "│", "┌", "┐", "└", "┘", "├", "┤", "┼", "┬", "┴");
    proof {
        reveal_strlit("─");
        reveal_strlit("│");
        reveal_strlit("┌");
        reveal_strlit("┐");
        reveal_strlit("└");
        reveal_strlit("┘");
        reveal_strlit("├");
        reveal_strlit("┤");
        reveal_strlit("┬");
        reveal_strlit("┴");
        reveal_strlit("┼");
        assert(b.top@ =~= seq!['─']);
        assert(b.bottom@ =~= seq!['─']);
        assert(b.left@ =~= seq!['│']);
        assert(b.right@ =~= seq!['│']);
        assert(b.top_left@ =~= seq!['┌']);
        assert(b.top_right@ =~= seq!['┐']);
        assert(b.bottom_left@ =~= seq!['└']);
        assert(b.bottom_right@ =~= seq!['┘']);
        assert(b.middle_left@ =~= seq!['├']);
        assert(b.middle_right@ =~= seq!['┤']);
        assert(b.middle@ =~= seq!['┼']);
        assert(b.middle_top@ =~= seq!['┬']);
        assert(b.middle_bottom@ =~= seq!['┴']);
        assert(border_parts(b) =~= seq![seq!['─'], seq!['─'], seq!['│'], seq!['│'], seq!['┌'], seq!['┐'], seq!['└'], seq!['┘'], seq!['├'], seq!['┤'], seq!['┼'], seq!['┬'], seq!['┴']]);
    }
    b
}

/// Single lines with rounded corners.
pub fn rounded_border() -> (b: Border)
    ensures
        border_parts(b) == seq![seq!['─'], seq!['─'], seq!['│'], seq!['│'], seq!['╭'], seq!['╮'], seq!['╰'], seq!['╯'], seq!['├'], seq!['┤'], seq!['┼'], seq!['┬'], seq!['┴']],
{
    let b = Border::new("─", "─", "│", "│", "╭", "╮", "╰", "╯", "├", "┤", "┼", "┬", "┴");
    proof {
        reveal_strlit("─");
        reveal_strlit("│");
        reveal_strlit("├");
        reveal_strlit("┤");
        reveal_strlit("┬");
        reveal_strlit("┴");
        reveal_strlit("┼");
        reveal_strlit("╭");
        reveal_strlit("╮");
        reveal_strlit("╯");
        reveal_strlit("╰");
        assert(b.top@ =~= seq!['─']);
        assert(b.bottom@ =~= seq!['─']);
        assert(b.left@ =~= seq!['│']);
        assert(b.right@ =~= seq!['│']);
        assert(b.top_left@ =~= seq!['╭']);
        assert(b.top_right@ =~= seq!['╮']);
        assert(b.bottom_left@ =~= seq!['╰']);
        assert(b.bottom_right@ =~= seq!['╯']);
        assert(b.middle_left@ =~= seq!['├']);
        assert(b.middle_right@ =~= seq!['┤']);
        assert(b.middle@ =~= seq!['┼']);
        assert(b.middle_top@ =~= seq!['┬']);
        assert(b.middle_bottom@ =~= seq!['┴']);
        assert(border_parts(b) =~= seq![seq!['─'], seq!['─'], seq!['│'], seq!['│'], seq!['╭'], seq!['╮'], seq!['╰'], seq!['╯'], seq!['├'], seq!['┤'], seq!['┼'], seq!['┬'], seq!['┴']]);
    }
    b
}

/// Full blocks on every edge and corner.
pub fn block_border() -> (b: Border)
    ensures
        border_parts(b) == seq![seq!['█'], seq!['█'], seq!['█'], seq!['█'], seq!['█'], seq!['█'], seq!['█'], seq!['█'], seq!['█'], seq!['█'], seq!['█'], seq!['█'], seq!['█']],
{
    let b = Border::new("█", "█", "█", "█", "█", "█", "█", "█", "█", "█", "█", "█", "█");
    proof {
        reveal_strlit("█");
        assert(b.top@ =~= seq!['█']);
        assert(b.bottom@ =~= seq!['█']);
        assert(b.left@ =~= seq!['█']);
        assert(b.right@ =~= seq!['█']);
        assert(b.top_left@ =~= seq!['█']);
        assert(b.top_right@ =~= seq!['█']);
        assert(b.bottom_left@ =~= seq!['█']);
        assert(b.bottom_right@ =~= seq!['█']);
        assert(b.middle_left@ =~= seq!['█']);
        assert(b.middle_right@ =~= seq!['█']);
        assert(b.middle@ =~= seq!['█']);
        assert(b.middle_top@ =~= seq!['█']);
        assert(b.middle_bottom@ =~= seq!['█']);
        assert(border_parts(b) =~= seq![seq!['█'], seq!['█'], seq!['█'], seq!['█'], seq!['█'], seq!['█'], seq!['█'], seq!['█'], seq!['█'], seq!['█'], seq!['█'], seq!['█'], seq!['█']]);
    }
    b
}

/// Heavy single lines.
pub fn thick_border() -> (b: Border)
    ensures
        border_parts(b) == seq![seq!['━'], seq!['━'], seq!['┃'], seq!['┃'], seq!['┏'], seq!['┓'], seq!['┗'], seq!['┛'], seq!['┣'], seq!['┫'], seq!['╋'], seq!['┳'], seq!['┻']],
{
    let b = Border::new("━", "━", "┃", "┃", "┏", "┓", "┗", "┛", "┣", "┫", "╋", "┳", "┻");
    proof {
        reveal_strlit("━");
        reveal_strlit("┃");
        reveal_strlit("┏");
        reveal_strlit("┓");
        reveal_strlit("┗");
        reveal_strlit("┛");
        reveal_strlit("┣");
        reveal_strlit("┫");
        reveal_strlit("┳");
        reveal_strlit("┻");
        reveal_strlit("╋");
        assert(b.top@ =~= seq!['━']);
        assert(b.bottom@ =~= seq!['━']);
        assert(b.left@ =~= seq!['┃']);
        assert(b.right@ =~= seq!['┃']);
        assert(b.top_left@ =~= seq!['┏']);
        assert(b.top_right@ =~= seq!['┓']);
        assert(b.bottom_left@ =~= seq!['┗']);
        assert(b.bottom_right@ =~= seq!['┛']);
        assert(b.middle_left@ =~= seq!['┣']);
        assert(b.middle_right@ =~= seq!['┫']);
        assert(b.middle@ =~= seq!['╋']);
        assert(b.middle_top@ =~= seq!['┳']);
        assert(b.middle_bottom@ =~= seq!['┻']);
        assert(border_parts(b) =~= seq![seq!['━'], seq!['━'], seq!['┃'], seq!['┃'], seq!['┏'], seq!['┓'], seq!['┗'], seq!['┛'], seq!['┣'], seq!['┫'], seq!['╋'], seq!['┳'], seq!['┻']]);
    }
    b
}

/// Double lines.
pub fn double_border() -> (b: Border)
    ensures
        border_parts(b) == seq![seq!['═'], seq!['═'], seq!['║'], seq!['║'], seq!['╔'], seq!['╗'], seq!['╚'], seq!['╝'], seq!['╠'], seq!['╣'], seq!['╬'], seq!['╦'], seq!['╩']],
{
    let b = Border::new("═", "═", "║", "║", "╔", "╗", "╚", "╝", "╠", "╣", "╬", "╦", "╩");
    proof {
        reveal_strlit("═");
        reveal_strlit("║");
        reveal_strlit("╔");
        reveal_strlit("╗");
        reveal_strlit("╚");
        reveal_strlit("╝");
        reveal_strlit("╠");
        reveal_strlit("╣");
        reveal_strlit("╦");
        reveal_strlit("╩");
        reveal_strlit("╬");
        assert(b.top@ =~= seq!['═']);
        assert(b.bottom@ =~= seq!['═']);
        assert(b.left@ =~= seq!['║']);
        assert(b.right@ =~= seq!['║']);
        assert(b.top_left@ =~= seq!['╔']);
        assert(b.top_right@ =~= seq!['╗']);
        assert(b.bottom_left@ =~= seq!['╚']);
        assert(b.bottom_right@ =~= seq!['╝']);
        assert(b.middle_left@ =~= seq!['╠']);
        assert(b.middle_right@ =~= seq!['╣']);
        assert(b.middle@ =~= seq!['╬']);
        assert(b.middle_top@ =~= seq!['╦']);
        assert(b.middle_bottom@ =~= seq!['╩']);
        assert(border_parts(b) =~= seq![seq!['═'], seq!['═'], seq!['║'], seq!['║'], seq!['╔'], seq!['╗'], seq!['╚'], seq!['╝'], seq!['╠'], seq!['╣'], seq!['╬'], seq!['╦'], seq!['╩']]);
    }
    b
}

/// Spaces: takes room without showing.
pub fn hidden_border() -> (b: Border)
    ensures
        border_parts(b) == seq![seq![' '], seq![' '], seq![' '], seq![' '], seq![' '], seq![' '], seq![' '], seq![' '], seq![' '], seq![' '], seq![' '], seq![' '], seq![' ']],
{
    let b = Border::new(" ", " ", " ", " ", " ", " ", " ", " ", " ", " ", " ", " ", " ");
    proof {
        reveal_strlit(" ");
        assert(b.top@ =~= seq![' ']);
        assert(b.bottom@ =~= seq![' ']);
        assert(b.left@ =~= seq![' ']);
        assert(b.right@ =~= seq![' ']);
        assert(b.top_left@ =~= seq![' ']);
        assert(b.top_right@ =~= seq![' ']);
        assert(b.bottom_left@ =~= seq![' ']);
        assert(b.bottom_right@ =~= seq![' ']);
        assert(b.middle_left@ =~= seq![' ']);
        assert(b.middle_right@ =~= seq![' ']);
        assert(b.middle@ =~= seq![' ']);
        assert(b.middle_top@ =~= seq![' ']);
        assert(b.middle_bottom@ =~= seq![' ']);
        assert(border_parts(b) =~= seq![seq![' '], seq![' '], seq![' '], seq![' '], seq![' '], seq![' '], seq![' '], seq![' '], seq![' '], seq![' '], seq![' '], seq![' '], seq![' ']]);
    }
    b
}

/// Pipes and dashes as in a markdown table.
pub fn markdown_border() -> (b: Border)
    ensures
        border_parts(b) == seq![seq!['-'], seq!['-'], seq!['|'], seq!['|'], seq!['|'], seq!['|'], seq!['|'], seq!['|'], seq!['|'], seq!['|'], seq!['|'], seq!['|'], seq!['|']],
{
    let b = Border::new("-", "-", "|", "|", "|", "|", "|", "|", "|", "|", "|", "|", "|");
    proof {
        reveal_strlit("-");
        reveal_strlit("|");
        assert(b.top@ =~= seq!['-']);
        assert(b.bottom@ =~= seq!['-']);
        assert(b.left@ =~= seq!['|']);
        assert(b.right@ =~= seq!['|']);
        assert(b.top_left@ =~= seq!['|']);
        assert(b.top_right@ =~= seq!['|']);
        assert(b.bottom_left@ =~= seq!['|']);
        assert(b.bottom_right@ =~= seq!['|']);
        assert(b.middle_left@ =~= seq!['|']);
        assert(b.middle_right@ =~= seq!['|']);
        assert(b.middle@ =~= seq!['|']);
        assert(b.middle_top@ =~= seq!['|']);
        assert(b.middle_bottom@ =~= seq!['|']);
        assert(border_parts(b) =~= seq![seq!['-'], seq!['-'], seq!['|'], seq!['|'], seq!['|'], seq!['|'], seq!['|'], seq!['|'], seq!['|'], seq!['|'], seq!['|'], seq!['|'], seq!['|']]);
    }
    b
}

/// Plain ASCII: dashes, pipes and plus signs.
pub fn ascii_border() -> (b: Border)
    ensures
        border_parts(b) == seq![seq!['-'], seq!['-'], seq!['|'], seq!['|'], seq!['+'], seq!['+'], seq!['+'], seq!['+'], seq!['+'], seq!['+'], seq!['+'], seq!['+'], seq!['+']],
{
    let b = Border::new("-", "-", "|", "|", "+", "+", "+", "+", "+", "+", "+", "+", "+");
    proof {
        reveal_strlit("+");
        reveal_strlit("-");
        reveal_strlit("|");
        assert(b.top@ =~= seq!['-']);
        assert(b.bottom@ =~= seq!['-']);
        assert(b.left@ =~= seq!['|']);
        assert(b.right@ =~= seq!['|']);
        assert(b.top_left@ =~= seq!['+']);
        assert(b.top_right@ =~= seq!['+']);
        assert(b.bottom_left@ =~= seq!['+']);
        assert(b.bottom_right@ =~= seq!['+']);
        assert(b.middle_left@ =~= seq!['+']);
        assert(b.middle_right@ =~= seq!['+']);
        assert(b.middle@ =~= seq!['+']);
        assert(b.middle_top@ =~= seq!['+']);
        assert(b.middle_bottom@ =~= seq!['+']);
        assert(border_parts(b) =~= seq![seq!['-'], seq!['-'], seq!['|'], seq!['|'], seq!['+'], seq!['+'], seq!['+'], seq!['+'], seq!['+'], seq!['+'], seq!['+'], seq!['+'], seq!['+']]);
    }
    b
}

/// Half blocks drawn outside the content; no joiners.
pub fn outer_half_block_border() -> (b: Border)
    ensures
        border_parts(b) == seq![seq!['▀'], seq!['▄'], seq!['▌'], seq!['▐'], seq!['▛'], seq!['▜'], seq!['▙'], seq!['▟'], Seq::<char>::empty(), Seq::<char>::empty(), Seq::<char>::empty(), Seq::<char>::empty(), Seq::<char>::empty()],
{
    let b = Border::new("▀", "▄", "▌", "▐", "▛", "▜", "▙", "▟", "", "", "", "", "");
    proof {
        reveal_strlit("");
        reveal_strlit("▀");
        reveal_strlit("▄");
        reveal_strlit("▌");
        reveal_strlit("▐");
        reveal_strlit("▙");
        reveal_strlit("▛");
        reveal_strlit("▜");
        reveal_strlit("▟");
        assert(b.top@ =~= seq!['▀']);
        assert(b.bottom@ =~= seq!['▄']);
        assert(b.left@ =~= seq!['▌']);
        assert(b.right@ =~= seq!['▐']);
        assert(b.top_left@ =~= seq!['▛']);
        assert(b.top_right@ =~= seq!['▜']);
        assert(b.bottom_left@ =~= seq!['▙']);
        assert(b.bottom_right@ =~= seq!['▟']);
        assert(b.middle_left@ =~= Seq::<char>::empty());
        assert(b.middle_right@ =~= Seq::<char>::empty());
        assert(b.middle@ =~= Seq::<char>::empty());
        assert(b.middle_top@ =~= Seq::<char>::empty());
        assert(b.middle_bottom@ =~= Seq::<char>::empty());
        assert(border_parts(b) =~= seq![seq!['▀'], seq!['▄'], seq!['▌'], seq!['▐'], seq!['▛'], seq!['▜'], seq!['▙'], seq!['▟'], Seq::<char>::empty(), Seq::<char>::empty(), Seq::<char>::empty(), Seq::<char>::empty(), Seq::<char>::empty()]);
    }
    b
}

/// Half blocks drawn inside the content; no joiners.
pub fn inner_half_block_border() -> (b: Border)
    ensures
        border_parts(b) == seq![seq!['▄'], seq!['▀'], seq!['▐'], seq!['▌'], seq!['▗'], seq!['▖'], seq!['▝'], seq!['▘'], Seq::<char>::empty(), Seq::<char>::empty(), Seq::<char>::empty(), Seq::<char>::empty(), Seq::<char>::empty()],
{
    let b = Border::new("▄", "▀", "▐", "▌", "▗", "▖", "▝", "▘", "", "", "", "", "");
    proof {
        reveal_strlit("");
        reveal_strlit("▀");
        reveal_strlit("▄");
        reveal_strlit("▌");
        reveal_strlit("▐");
        reveal_strlit("▖");
        reveal_strlit("▗");
        reveal_strlit("▘");
        reveal_strlit("▝");
        assert(b.top@ =~= seq!['▄']);
        assert(b.bottom@ =~= seq!['▀']);
        assert(b.left@ =~= seq!['▐']);
        assert(b.right@ =~= seq!['▌']);
        assert(b.top_left@ =~= seq!['▗']);
        assert(b.top_right@ =~= seq!['▖']);
        assert(b.bottom_left@ =~= seq!['▝']);
        assert(b.bottom_right@ =~= seq!['▘']);
        assert(b.middle_left@ =~= Seq::<char>::empty());
        assert(b.middle_right@ =~= Seq::<char>::empty());
        assert(b.middle@ =~= Seq::<char>::empty());
        assert(b.middle_top@ =~= Seq::<char>::empty());
        assert(b.middle_bottom@ =~= Seq::<char>::empty());
        assert(border_parts(b) =~= seq![seq!['▄'], seq!['▀'], seq!['▐'], seq!['▌'], seq!['▗'], seq!['▖'], seq!['▝'], seq!['▘'], Seq::<char>::empty(), Seq::<char>::empty(), Seq::<char>::empty(), Seq::<char>::empty(), Seq::<char>::empty()]);
    }
    b
}

} // verus!
