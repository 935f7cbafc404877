//! Rendering text with a style.

use vstd::prelude::*;
use crate::position::clamped_position;
use crate::renderer::{ColorProfileKind, Renderer};
use crate::strings::string_from_chars;
use crate::style::data::{Style, TextTransform};
use crate::style::frame::{
    border_exec, draws_border, has_bg, height_align_exec, height_aligned, margins_exec,
    sgr_line, sgr_lines_exec, width_align_exec, width_aligned, with_border, with_margins,
};
use crate::style::keys::{
    ALIGN_HORIZONTAL_KEY, ALIGN_VERTICAL_KEY, ATTR_COLOR_WHITESPACE, BACKGROUND_KEY, BORDER_STYLE_KEY, HEIGHT_KEY,
    TRANSFORM_KEY, WIDTH_KEY,
};
use crate::style::sgr::{sgr_seq, sgr_seq_exec, style_sgr, style_sgr_exec};
use crate::style::stages::{body, body_exec, prepared, prepared_exec};
use crate::text::{join_lines, join_lines_exec, lines_view, split_lines, split_lines_exec};

verus! {

/// The profile a style renders with: its own renderer's, else the default
/// renderer's.
pub open spec fn profile_of<T>(st: Style<T>, dp: ColorProfileKind) -> ColorProfileKind {
    match st.r {
        Some(r) => r.spec_color_profile(),
        None => dp,
    }
}

/// Nothing but the body is laid out: no SGR parameters, no width, no
/// height and no border.
pub open spec fn plain<T>(st: Style<T>, p: ColorProfileKind) -> bool {
    style_sgr(st, p).len() == 0 && st.dim(WIDTH_KEY, st.width) <= 0 && st.dim(HEIGHT_KEY, st.height) <= 0
        && !draws_border(st)
}

/// The styled block of text `t` (after any transformation): the body, then
/// aligned in the width and height, bordered, and colored line by line.
pub open spec fn render_core<T>(st: Style<T>, p: ColorProfileKind, t: Seq<char>) -> Seq<char> {
    let b = body(st, t);
    if plain(st, p) {
        b
    } else {
        let sg = style_sgr(st, p);
        let l1 = width_aligned(
            split_lines(b),
            st.dim(WIDTH_KEY, st.width) as int,
            clamped_position(st.pos(ALIGN_HORIZONTAL_KEY, st.align_horizontal)),
        );
        let l2 = height_aligned(
            l1,
            st.dim(HEIGHT_KEY, st.height) as int,
            clamped_position(st.pos(ALIGN_VERTICAL_KEY, st.align_vertical)),
        );
        let l3 = with_border(st, p, l2);
        let l4 = if sg.len() > 0 {
            l3.map_values(|l: Seq<char>| sgr_line(l, sgr_seq(sg), has_bg(st)))
        } else {
            l3
        };
        join_lines(l4)
    }
}

/// The rendered text `t` (after any transformation), with the margins
/// around it.
pub open spec fn render_text<T>(st: Style<T>, dp: ColorProfileKind, t: Seq<char>) -> Seq<char> {
    with_margins(st, dp, render_core(st, profile_of(st, dp), t))
}

/// A transformation is applied: one is set and held.
pub open spec fn transforming<T>(st: Style<T>) -> bool {
    st.has(TRANSFORM_KEY) && st.transform is Some
}

/// `out` renders what the style's transformation may return for the text
/// `p`: some string `t` that it may give for a string holding `p`.
pub open spec fn renders_transformed<T: TextTransform>(st: Style<T>, dp: ColorProfileKind, p: Seq<char>, out: Seq<char>) -> bool {
    exists|a: String, t: String|
        #![trigger st.transform.unwrap().transforms(a, t)]
        a@ == p && st.transform.unwrap().transforms(a, t) && out == render_text(st, dp, t@)
}

/// The styled block of text `t`.
fn render_core_exec<T: TextTransform>(st: &Style<T>, p: ColorProfileKind, t: &[char]) -> (r: Vec<char>)
    requires
        st.wf(),
    ensures
        r@ == render_core(*st, p, t@),
{
    let b = body_exec(st, t);
    let sgr = style_sgr_exec(st, p);
    let tw = st.get_width();
    let th = st.get_height();
    let border = (st.get_border_top() || st.get_border_right() || st.get_border_bottom() || st.get_border_left())
        && st.is_set(BORDER_STYLE_KEY);
    if sgr.len() == 0 && tw <= 0 && th <= 0 && !border {
        return b;
    }
    let lines = split_lines_exec(b.as_slice());
    let h = st.get_align_horizontal().value();
    let l1 = width_align_exec(&lines, tw, h);
    let v = st.get_align_vertical().value();
    let l2 = height_align_exec(l1, th, v);
    let l3 = if border { border_exec(st, p, &l2) } else { l2 };
    let l4 = if sgr.len() > 0 {
        let pre = sgr_seq_exec(&sgr);
        let bg = st.is_set(BACKGROUND_KEY) || st.get_attr(ATTR_COLOR_WHITESPACE);
        sgr_lines_exec(&l3, &pre, bg)
    } else {
        l3
    };
    join_lines_exec(&l4)
}

impl<T: TextTransform> Style<T> {
    /// Renders `s` (or the style's own text, when it has one). The style's
    /// renderer decides the color profile; without one, `default` does.
    /// Line endings are normalised, newlines removed for an inline style,
    /// the transformation applied, then the text laid out and decorated
    /// (see `render_text`).
    pub fn render(&self, default: &Renderer, s: &str) -> (out: String)
        requires
            self.wf(),
            self.accepts_any_text(),
        ensures
            !transforming(*self) ==> out@ == render_text(*self, default.spec_color_profile(), prepared(*self, s@)),
            transforming(*self) ==> renders_transformed(*self, default.spec_color_profile(), prepared(*self, s@), out@),
    {
        let prepared_text = prepared_exec(self, s);
        let ghost mut aa: String = arbitrary();
        let ghost mut ta: String = arbitrary();
        let text: Vec<char> = if self.is_set(TRANSFORM_KEY) {
            match &self.transform {
                Some(f) => {
                    let a = string_from_chars(prepared_text.as_slice());
                    let ghost ga = a;
                    let t = f.apply(a);
                    proof {
                        ta = t;
                        aa = ga;
                    }
                    crate::strings::chars_of(t.as_str())
                },
                None => prepared_text,
            }
        } else {
            prepared_text
        };
        let dp = default.color_profile();
        let p = match self.r {
            Some(r) => r.color_profile(),
            None => dp,
        };
        let core = render_core_exec(self, p, text.as_slice());
        let framed = margins_exec(self, dp, core.as_slice());
        let out = string_from_chars(framed.as_slice());
        assert(out@ == render_text(*self, dp, text@));
        proof {
            if transforming(*self) {
                assert(self.transform.unwrap().transforms(aa, ta));
            }
        }
        out
    }

    /// Same as `render`.
    pub fn apply(&self, default: &Renderer, s: &str) -> (out: String)
        requires
            self.wf(),
            self.accepts_any_text(),
        ensures
            !transforming(*self) ==> out@ == render_text(*self, default.spec_color_profile(), prepared(*self, s@)),
            transforming(*self) ==> renders_transformed(*self, default.spec_color_profile(), prepared(*self, s@), out@),
    {
        self.render(default, s)
    }
}

} // verus!
