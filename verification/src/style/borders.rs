//! Borders of a style.

use vstd::prelude::*;
use crate::style::keys::{ATTR_BORDER_BOTTOM, ATTR_BORDER_LEFT, ATTR_BORDER_RIGHT, ATTR_BORDER_TOP, BORDER_BOTTOM_KEY, BORDER_LEFT_KEY, BORDER_RIGHT_KEY, BORDER_STYLE_KEY, BORDER_TOP_KEY, group_style_bits, put_bit32, with_bit64};
use crate::border::Border;
use crate::style::data::{Style, TextTransform};
use crate::utils::{shorthand_sides, which_sides_bool};

verus! {

broadcast use group_style_bits;

/// The style with a border style and the four sides set to the values.
pub open spec fn with_border_sides<T>(s: Style<T>, b: Border, top: bool, right: bool, bottom: bool, left: bool) -> Style<T> {
    Style {
        border_style: b,
        props: with_bit64(with_bit64(with_bit64(with_bit64(with_bit64(s.props, BORDER_STYLE_KEY), BORDER_TOP_KEY), BORDER_RIGHT_KEY), BORDER_BOTTOM_KEY), BORDER_LEFT_KEY),
        attrs: put_bit32(put_bit32(put_bit32(put_bit32(s.attrs, ATTR_BORDER_TOP, top), ATTR_BORDER_RIGHT, right), ATTR_BORDER_BOTTOM, bottom), ATTR_BORDER_LEFT, left),
        ..s
    }
}

impl<T: TextTransform> Style<T> {

    /// Sets the border style and draws all four sides.
    pub fn border(self, b: Border) -> (r: Self)
        ensures
            r == with_border_sides(self, b, true, true, true, true),
    {
        let mut s = self;
        s.border_style = b;
        s.set_prop(BORDER_STYLE_KEY);
        s.set_attr(ATTR_BORDER_TOP, true);
        s.set_attr(ATTR_BORDER_RIGHT, true);
        s.set_attr(ATTR_BORDER_BOTTOM, true);
        s.set_attr(ATTR_BORDER_LEFT, true);
        s.set_prop(BORDER_TOP_KEY);
        s.set_prop(BORDER_RIGHT_KEY);
        s.set_prop(BORDER_BOTTOM_KEY);
        s.set_prop(BORDER_LEFT_KEY);
        s
    }

    /// Sets the border style only; no side is drawn until one is enabled.
    pub fn border_style(self, b: Border) -> (r: Self)
        ensures
            r == (Style { border_style: b, props: with_bit64(self.props, BORDER_STYLE_KEY), ..self }),
    {
        let mut s = self;
        s.border_style = b;
        s.set_prop(BORDER_STYLE_KEY);
        s
    }

    /// Sets whether the top border is drawn.
    pub fn border_top(self, v: bool) -> (r: Self)
        ensures
            r == (Style { props: with_bit64(self.props, BORDER_TOP_KEY), attrs: put_bit32(self.attrs, ATTR_BORDER_TOP, v), ..self }),
    {
        let mut s = self;
        s.set_attr(ATTR_BORDER_TOP, v);
        s.set_prop(BORDER_TOP_KEY);
        s
    }

    /// Sets whether the right border is drawn.
    pub fn border_right(self, v: bool) -> (r: Self)
        ensures
            r == (Style { props: with_bit64(self.props, BORDER_RIGHT_KEY), attrs: put_bit32(self.attrs, ATTR_BORDER_RIGHT, v), ..self }),
    {
        let mut s = self;
        s.set_attr(ATTR_BORDER_RIGHT, v);
        s.set_prop(BORDER_RIGHT_KEY);
        s
    }

    /// Sets whether the bottom border is drawn.
    pub fn border_bottom(self, v: bool) -> (r: Self)
        ensures
            r == (Style { props: with_bit64(self.props, BORDER_BOTTOM_KEY), attrs: put_bit32(self.attrs, ATTR_BORDER_BOTTOM, v), ..self }),
    {
        let mut s = self;
        s.set_attr(ATTR_BORDER_BOTTOM, v);
        s.set_prop(BORDER_BOTTOM_KEY);
        s
    }

    /// Sets whether the left border is drawn.
    pub fn border_left(self, v: bool) -> (r: Self)
        ensures
            r == (Style { props: with_bit64(self.props, BORDER_LEFT_KEY), attrs: put_bit32(self.attrs, ATTR_BORDER_LEFT, v), ..self }),
    {
        let mut s = self;
        s.set_attr(ATTR_BORDER_LEFT, v);
        s.set_prop(BORDER_LEFT_KEY);
        s
    }

    /// Sets the border style and the sides from a CSS-style shorthand of one
    /// to four booleans; any other count draws all four sides.
    pub fn border_with_sides(self, border: Border, sides: &[bool]) -> (r: Self)
        ensures
            match shorthand_sides(sides@) {
                Some(v) => r == with_border_sides(self, border, v.0, v.1, v.2, v.3),
                None => r == with_border_sides(self, border, true, true, true, true),
            },
    {
        let mut s = self;
        s.border_style = border;
        s.set_prop(BORDER_STYLE_KEY);
        let (top, right, bottom, left, ok) = which_sides_bool(sides);
        let (top, right, bottom, left) = if ok { (top, right, bottom, left) } else { (true, true, true, true) };
        s.set_attr(ATTR_BORDER_TOP, top);
        s.set_attr(ATTR_BORDER_RIGHT, right);
        s.set_attr(ATTR_BORDER_BOTTOM, bottom);
        s.set_attr(ATTR_BORDER_LEFT, left);
        s.set_prop(BORDER_TOP_KEY);
        s.set_prop(BORDER_RIGHT_KEY);
        s.set_prop(BORDER_BOTTOM_KEY);
        s.set_prop(BORDER_LEFT_KEY);
        s
    }
}

} // verus!
