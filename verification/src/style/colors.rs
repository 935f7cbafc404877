//! Colors of a style: each stored as the token a color gives under a
//! renderer when it is set.

use vstd::prelude::*;
use crate::style::keys::{BACKGROUND_KEY, BORDER_BOTTOM_BACKGROUND_KEY, BORDER_BOTTOM_FOREGROUND_KEY, BORDER_LEFT_BACKGROUND_KEY, BORDER_LEFT_FOREGROUND_KEY, BORDER_RIGHT_BACKGROUND_KEY, BORDER_RIGHT_FOREGROUND_KEY, BORDER_TOP_BACKGROUND_KEY, BORDER_TOP_FOREGROUND_KEY, FOREGROUND_KEY, MARGIN_BACKGROUND_KEY, group_style_bits, with_bit64};
use crate::color::TerminalColor;
use crate::renderer::Renderer;
use crate::style::data::{Style, TextTransform};
use crate::utils::shorthand_sides;

verus! {

broadcast use group_style_bits;

/// The token a color gives under a renderer.
pub open spec fn token_of<C: TerminalColor>(c: C, re: Renderer) -> Seq<char> {
    c.spec_token(re.spec_color_profile(), re.spec_dark_background())
}

/// An optional color token holds exactly `t`.
pub open spec fn holds_token(o: Option<String>, t: Seq<char>) -> bool {
    o matches Some(s) && s@ == t
}

/// The style with the four border foreground tokens set.
pub open spec fn with_border_fgs<T>(s: Style<T>, r: Style<T>, t: Seq<char>, ri: Seq<char>, b: Seq<char>, l: Seq<char>) -> bool {
    &&& holds_token(r.border_top_fg_color, t)
    &&& holds_token(r.border_right_fg_color, ri)
    &&& holds_token(r.border_bottom_fg_color, b)
    &&& holds_token(r.border_left_fg_color, l)
    &&& r == (Style {
        border_top_fg_color: r.border_top_fg_color,
        border_right_fg_color: r.border_right_fg_color,
        border_bottom_fg_color: r.border_bottom_fg_color,
        border_left_fg_color: r.border_left_fg_color,
        props: with_bit64(with_bit64(with_bit64(with_bit64(s.props, BORDER_TOP_FOREGROUND_KEY), BORDER_RIGHT_FOREGROUND_KEY), BORDER_BOTTOM_FOREGROUND_KEY), BORDER_LEFT_FOREGROUND_KEY),
        ..s
    })
}

/// The style with the four border background tokens set.
pub open spec fn with_border_bgs<T>(s: Style<T>, r: Style<T>, t: Seq<char>, ri: Seq<char>, b: Seq<char>, l: Seq<char>) -> bool {
    &&& holds_token(r.border_top_bg_color, t)
    &&& holds_token(r.border_right_bg_color, ri)
    &&& holds_token(r.border_bottom_bg_color, b)
    &&& holds_token(r.border_left_bg_color, l)
    &&& r == (Style {
        border_top_bg_color: r.border_top_bg_color,
        border_right_bg_color: r.border_right_bg_color,
        border_bottom_bg_color: r.border_bottom_bg_color,
        border_left_bg_color: r.border_left_bg_color,
        props: with_bit64(with_bit64(with_bit64(with_bit64(s.props, BORDER_TOP_BACKGROUND_KEY), BORDER_RIGHT_BACKGROUND_KEY), BORDER_BOTTOM_BACKGROUND_KEY), BORDER_LEFT_BACKGROUND_KEY),
        ..s
    })
}

impl<T: TextTransform> Style<T> {

    /// Sets the foreground to the color's token under the renderer.
    pub fn foreground<C: TerminalColor>(self, re: &Renderer, color: C) -> (r: Self)
        ensures
            holds_token(r.fg_color, token_of(color, *re)),
            r == (Style { fg_color: r.fg_color, props: with_bit64(self.props, FOREGROUND_KEY), ..self }),
    {
        let mut s = self;
        s.fg_color = Some(color.token(re));
        s.set_prop(FOREGROUND_KEY);
        s
    }

    /// Sets the background to the color's token under the renderer.
    pub fn background<C: TerminalColor>(self, re: &Renderer, color: C) -> (r: Self)
        ensures
            holds_token(r.bg_color, token_of(color, *re)),
            r == (Style { bg_color: r.bg_color, props: with_bit64(self.props, BACKGROUND_KEY), ..self }),
    {
        let mut s = self;
        s.bg_color = Some(color.token(re));
        s.set_prop(BACKGROUND_KEY);
        s
    }

    /// Sets the top border foreground to the color's token under the renderer.
    pub fn border_top_foreground<C: TerminalColor>(self, re: &Renderer, color: C) -> (r: Self)
        ensures
            holds_token(r.border_top_fg_color, token_of(color, *re)),
            r == (Style { border_top_fg_color: r.border_top_fg_color, props: with_bit64(self.props, BORDER_TOP_FOREGROUND_KEY), ..self }),
    {
        let mut s = self;
        s.border_top_fg_color = Some(color.token(re));
        s.set_prop(BORDER_TOP_FOREGROUND_KEY);
        s
    }

    /// Sets the right border foreground to the color's token under the renderer.
    pub fn border_right_foreground<C: TerminalColor>(self, re: &Renderer, color: C) -> (r: Self)
        ensures
            holds_token(r.border_right_fg_color, token_of(color, *re)),
            r == (Style { border_right_fg_color: r.border_right_fg_color, props: with_bit64(self.props, BORDER_RIGHT_FOREGROUND_KEY), ..self }),
    {
        let mut s = self;
        s.border_right_fg_color = Some(color.token(re));
        s.set_prop(BORDER_RIGHT_FOREGROUND_KEY);
        s
    }

    /// Sets the bottom border foreground to the color's token under the renderer.
    pub fn border_bottom_foreground<C: TerminalColor>(self, re: &Renderer, color: C) -> (r: Self)
        ensures
            holds_token(r.border_bottom_fg_color, token_of(color, *re)),
            r == (Style { border_bottom_fg_color: r.border_bottom_fg_color, props: with_bit64(self.props, BORDER_BOTTOM_FOREGROUND_KEY), ..self }),
    {
        let mut s = self;
        s.border_bottom_fg_color = Some(color.token(re));
        s.set_prop(BORDER_BOTTOM_FOREGROUND_KEY);
        s
    }

    /// Sets the left border foreground to the color's token under the renderer.
    pub fn border_left_foreground<C: TerminalColor>(self, re: &Renderer, color: C) -> (r: Self)
        ensures
            holds_token(r.border_left_fg_color, token_of(color, *re)),
            r == (Style { border_left_fg_color: r.border_left_fg_color, props: with_bit64(self.props, BORDER_LEFT_FOREGROUND_KEY), ..self }),
    {
        let mut s = self;
        s.border_left_fg_color = Some(color.token(re));
        s.set_prop(BORDER_LEFT_FOREGROUND_KEY);
        s
    }

    /// Sets the top border background to the color's token under the renderer.
    pub fn border_top_background<C: TerminalColor>(self, re: &Renderer, color: C) -> (r: Self)
        ensures
            holds_token(r.border_top_bg_color, token_of(color, *re)),
            r == (Style { border_top_bg_color: r.border_top_bg_color, props: with_bit64(self.props, BORDER_TOP_BACKGROUND_KEY), ..self }),
    {
        let mut s = self;
        s.border_top_bg_color = Some(color.token(re));
        s.set_prop(BORDER_TOP_BACKGROUND_KEY);
        s
    }

    /// Sets the right border background to the color's token under the renderer.
    pub fn border_right_background<C: TerminalColor>(self, re: &Renderer, color: C) -> (r: Self)
        ensures
            holds_token(r.border_right_bg_color, token_of(color, *re)),
            r == (Style { border_right_bg_color: r.border_right_bg_color, props: with_bit64(self.props, BORDER_RIGHT_BACKGROUND_KEY), ..self }),
    {
        let mut s = self;
        s.border_right_bg_color = Some(color.token(re));
        s.set_prop(BORDER_RIGHT_BACKGROUND_KEY);
        s
    }

    /// Sets the bottom border background to the color's token under the renderer.
    pub fn border_bottom_background<C: TerminalColor>(self, re: &Renderer, color: C) -> (r: Self)
        ensures
            holds_token(r.border_bottom_bg_color, token_of(color, *re)),
            r == (Style { border_bottom_bg_color: r.border_bottom_bg_color, props: with_bit64(self.props, BORDER_BOTTOM_BACKGROUND_KEY), ..self }),
    {
        let mut s = self;
        s.border_bottom_bg_color = Some(color.token(re));
        s.set_prop(BORDER_BOTTOM_BACKGROUND_KEY);
        s
    }

    /// Sets the left border background to the color's token under the renderer.
    pub fn border_left_background<C: TerminalColor>(self, re: &Renderer, color: C) -> (r: Self)
        ensures
            holds_token(r.border_left_bg_color, token_of(color, *re)),
            r == (Style { border_left_bg_color: r.border_left_bg_color, props: with_bit64(self.props, BORDER_LEFT_BACKGROUND_KEY), ..self }),
    {
        let mut s = self;
        s.border_left_bg_color = Some(color.token(re));
        s.set_prop(BORDER_LEFT_BACKGROUND_KEY);
        s
    }

    /// Sets the margin background to the color's token under the renderer.
    pub fn margin_background<C: TerminalColor>(self, re: &Renderer, color: C) -> (r: Self)
        ensures
            holds_token(r.margin_bg_color, token_of(color, *re)),
            r == (Style { margin_bg_color: r.margin_bg_color, props: with_bit64(self.props, MARGIN_BACKGROUND_KEY), ..self }),
    {
        let mut s = self;
        s.margin_bg_color = Some(color.token(re));
        s.set_prop(MARGIN_BACKGROUND_KEY);
        s
    }

    /// Sets the foreground of all four border sides to the color's token.
    pub fn border_foreground<C: TerminalColor + Clone>(self, re: &Renderer, c: C) -> (r: Self)
        ensures
            with_border_fgs(self, r, token_of(c, *re), token_of(c, *re), token_of(c, *re), token_of(c, *re)),
    {
        let t = c.token(re);
        let mut s = self;
        s.border_top_fg_color = Some(t.clone());
        s.set_prop(BORDER_TOP_FOREGROUND_KEY);
        s.border_right_fg_color = Some(t.clone());
        s.set_prop(BORDER_RIGHT_FOREGROUND_KEY);
        s.border_bottom_fg_color = Some(t.clone());
        s.set_prop(BORDER_BOTTOM_FOREGROUND_KEY);
        s.border_left_fg_color = Some(t);
        s.set_prop(BORDER_LEFT_FOREGROUND_KEY);
        s
    }

    /// Sets the border foregrounds from a CSS-style shorthand of one to four
    /// colors; five or more leave the style unchanged. There is no default
    /// color, so at least one is needed.
    pub fn border_foreground_shorthand<C: TerminalColor + Clone>(self, re: &Renderer, colors: &[C]) -> (r: Self)
        requires
            colors@.len() > 0,
        ensures
            match shorthand_sides(colors@) {
                Some(v) => with_border_fgs(self, r, token_of(v.0, *re), token_of(v.1, *re), token_of(v.2, *re), token_of(v.3, *re)),
                None => r == self,
            },
    {
        let n = colors.len();
        if n > 4 {
            return self;
        }
        let (ti, ri, bi, li): (usize, usize, usize, usize) = if n == 1 {
            (0, 0, 0, 0)
        } else if n == 2 {
            (0, 1, 0, 1)
        } else if n == 3 {
            (0, 1, 2, 1)
        } else {
            (0, 1, 2, 3)
        };
        let mut s = self;
        s.border_top_fg_color = Some(colors[ti].token(re));
        s.set_prop(BORDER_TOP_FOREGROUND_KEY);
        s.border_right_fg_color = Some(colors[ri].token(re));
        s.set_prop(BORDER_RIGHT_FOREGROUND_KEY);
        s.border_bottom_fg_color = Some(colors[bi].token(re));
        s.set_prop(BORDER_BOTTOM_FOREGROUND_KEY);
        s.border_left_fg_color = Some(colors[li].token(re));
        s.set_prop(BORDER_LEFT_FOREGROUND_KEY);
        s
    }

    /// Sets the background of all four border sides to the color's token.
    pub fn border_background<C: TerminalColor + Clone>(self, re: &Renderer, c: C) -> (r: Self)
        ensures
            with_border_bgs(self, r, token_of(c, *re), token_of(c, *re), token_of(c, *re), token_of(c, *re)),
    {
        let t = c.token(re);
        let mut s = self;
        s.border_top_bg_color = Some(t.clone());
        s.set_prop(BORDER_TOP_BACKGROUND_KEY);
        s.border_right_bg_color = Some(t.clone());
        s.set_prop(BORDER_RIGHT_BACKGROUND_KEY);
        s.border_bottom_bg_color = Some(t.clone());
        s.set_prop(BORDER_BOTTOM_BACKGROUND_KEY);
        s.border_left_bg_color = Some(t);
        s.set_prop(BORDER_LEFT_BACKGROUND_KEY);
        s
    }

    /// Sets the border backgrounds from a CSS-style shorthand of one to four
    /// colors; five or more leave the style unchanged. There is no default
    /// color, so at least one is needed.
    pub fn border_background_shorthand<C: TerminalColor + Clone>(self, re: &Renderer, colors: &[C]) -> (r: Self)
        requires
            colors@.len() > 0,
        ensures
            match shorthand_sides(colors@) {
                Some(v) => with_border_bgs(self, r, token_of(v.0, *re), token_of(v.1, *re), token_of(v.2, *re), token_of(v.3, *re)),
                None => r == self,
            },
    {
        let n = colors.len();
        if n > 4 {
            return self;
        }
        let (ti, ri, bi, li): (usize, usize, usize, usize) = if n == 1 {
            (0, 0, 0, 0)
        } else if n == 2 {
            (0, 1, 0, 1)
        } else if n == 3 {
            (0, 1, 2, 1)
        } else {
            (0, 1, 2, 3)
        };
        let mut s = self;
        s.border_top_bg_color = Some(colors[ti].token(re));
        s.set_prop(BORDER_TOP_BACKGROUND_KEY);
        s.border_right_bg_color = Some(colors[ri].token(re));
        s.set_prop(BORDER_RIGHT_BACKGROUND_KEY);
        s.border_bottom_bg_color = Some(colors[bi].token(re));
        s.set_prop(BORDER_BOTTOM_BACKGROUND_KEY);
        s.border_left_bg_color = Some(colors[li].token(re));
        s.set_prop(BORDER_LEFT_BACKGROUND_KEY);
        s
    }

}

} // verus!
