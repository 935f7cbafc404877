//! Alignment, padding and margins of a style.

use vstd::prelude::*;
use crate::style::keys::{ALIGN_HORIZONTAL_KEY, ALIGN_VERTICAL_KEY, MARGIN_BOTTOM_KEY, MARGIN_LEFT_KEY, MARGIN_RIGHT_KEY, MARGIN_TOP_KEY, PADDING_BOTTOM_KEY, PADDING_LEFT_KEY, PADDING_RIGHT_KEY, PADDING_TOP_KEY, group_style_bits, with_bit64};
use crate::position::Position;
use crate::security::{clamp_dimension, validate_dimension};
use crate::style::data::{Style, TextTransform};
use crate::utils::{shorthand_sides, which_sides_int};

verus! {

broadcast use group_style_bits;

/// The style with its padding set to the four values, clamped.
pub open spec fn with_padding<T>(s: Style<T>, t: i32, r: i32, b: i32, l: i32) -> Style<T> {
    Style {
        padding_top: clamp_dimension(t as int) as i32,
        padding_right: clamp_dimension(r as int) as i32,
        padding_bottom: clamp_dimension(b as int) as i32,
        padding_left: clamp_dimension(l as int) as i32,
        props: with_bit64(with_bit64(with_bit64(with_bit64(s.props, PADDING_TOP_KEY), PADDING_RIGHT_KEY), PADDING_BOTTOM_KEY), PADDING_LEFT_KEY),
        ..s
    }
}

/// The style with its margins set to the four values, clamped.
pub open spec fn with_margin<T>(s: Style<T>, t: i32, r: i32, b: i32, l: i32) -> Style<T> {
    Style {
        margin_top: clamp_dimension(t as int) as i32,
        margin_right: clamp_dimension(r as int) as i32,
        margin_bottom: clamp_dimension(b as int) as i32,
        margin_left: clamp_dimension(l as int) as i32,
        props: with_bit64(with_bit64(with_bit64(with_bit64(s.props, MARGIN_TOP_KEY), MARGIN_RIGHT_KEY), MARGIN_BOTTOM_KEY), MARGIN_LEFT_KEY),
        ..s
    }
}

/// The style with both alignments set.
pub open spec fn with_align<T>(s: Style<T>, h: Position, v: Position) -> Style<T> {
    Style {
        align_horizontal: h,
        align_vertical: v,
        props: with_bit64(with_bit64(s.props, ALIGN_HORIZONTAL_KEY), ALIGN_VERTICAL_KEY),
        ..s
    }
}

/// The style with its horizontal alignment set.
pub open spec fn with_align_horizontal<T>(s: Style<T>, h: Position) -> Style<T> {
    Style { align_horizontal: h, props: with_bit64(s.props, ALIGN_HORIZONTAL_KEY), ..s }
}

/// The style that an alignment shorthand gives: one position sets the
/// horizontal alignment, two set both, any other count changes nothing.
pub open spec fn with_align_shorthand<T>(s: Style<T>, ps: Seq<Position>) -> Style<T> {
    if ps.len() == 1 {
        with_align_horizontal(s, ps[0])
    } else if ps.len() == 2 {
        with_align(s, ps[0], ps[1])
    } else {
        s
    }
}

impl<T: TextTransform> Style<T> {

    /// Sets both alignments.
    pub fn align(self, horizontal: Position, vertical: Position) -> (r: Self)
        ensures
            r == with_align(self, horizontal, vertical),
    {
        let mut s = self;
        s.align_horizontal = horizontal;
        s.align_vertical = vertical;
        s.set_prop(ALIGN_HORIZONTAL_KEY);
        s.set_prop(ALIGN_VERTICAL_KEY);
        s
    }

    /// Sets the horizontal alignment.
    pub fn align_horizontal(self, p: Position) -> (r: Self)
        ensures
            r == with_align_horizontal(self, p),
    {
        let mut s = self;
        s.align_horizontal = p;
        s.set_prop(ALIGN_HORIZONTAL_KEY);
        s
    }

    /// Sets the vertical alignment.
    pub fn align_vertical(self, p: Position) -> (r: Self)
        ensures
            r == (Style { align_vertical: p, props: with_bit64(self.props, ALIGN_VERTICAL_KEY), ..self }),
    {
        let mut s = self;
        s.align_vertical = p;
        s.set_prop(ALIGN_VERTICAL_KEY);
        s
    }

    /// Sets the padding on all four sides (top, right, bottom, left), each
    /// clamped into `0..=MAX_DIMENSION`.
    pub fn padding(self, top: i32, right: i32, bottom: i32, left: i32) -> (r: Self)
        ensures
            r == with_padding(self, top, right, bottom, left),
    {
        let mut s = self;
        s.padding_top = validate_dimension(top, "padding_top");
        s.padding_right = validate_dimension(right, "padding_right");
        s.padding_bottom = validate_dimension(bottom, "padding_bottom");
        s.padding_left = validate_dimension(left, "padding_left");
        s.set_prop(PADDING_TOP_KEY);
        s.set_prop(PADDING_RIGHT_KEY);
        s.set_prop(PADDING_BOTTOM_KEY);
        s.set_prop(PADDING_LEFT_KEY);
        s
    }

    /// Sets the padding: `vertical` above and below, `horizontal` left and right.
    pub fn padding_2(self, vertical: i32, horizontal: i32) -> (r: Self)
        ensures
            r == with_padding(self, vertical, horizontal, vertical, horizontal),
    {
        self.padding(vertical, horizontal, vertical, horizontal)
    }

    /// Sets the padding: `top`, `horizontal` left and right, `bottom`.
    pub fn padding_3(self, top: i32, horizontal: i32, bottom: i32) -> (r: Self)
        ensures
            r == with_padding(self, top, horizontal, bottom, horizontal),
    {
        self.padding(top, horizontal, bottom, horizontal)
    }

    /// Sets the left padding, clamped into `0..=MAX_DIMENSION`.
    pub fn padding_left(self, n: i32) -> (r: Self)
        ensures
            r == (Style { padding_left: clamp_dimension(n as int) as i32, props: with_bit64(self.props, PADDING_LEFT_KEY), ..self }),
    {
        let mut s = self;
        s.padding_left = validate_dimension(n, "padding_left");
        s.set_prop(PADDING_LEFT_KEY);
        s
    }

    /// Sets the right padding, clamped into `0..=MAX_DIMENSION`.
    pub fn padding_right(self, n: i32) -> (r: Self)
        ensures
            r == (Style { padding_right: clamp_dimension(n as int) as i32, props: with_bit64(self.props, PADDING_RIGHT_KEY), ..self }),
    {
        let mut s = self;
        s.padding_right = validate_dimension(n, "padding_right");
        s.set_prop(PADDING_RIGHT_KEY);
        s
    }

    /// Sets the top padding, clamped into `0..=MAX_DIMENSION`.
    pub fn padding_top(self, n: i32) -> (r: Self)
        ensures
            r == (Style { padding_top: clamp_dimension(n as int) as i32, props: with_bit64(self.props, PADDING_TOP_KEY), ..self }),
    {
        let mut s = self;
        s.padding_top = validate_dimension(n, "padding_top");
        s.set_prop(PADDING_TOP_KEY);
        s
    }

    /// Sets the bottom padding, clamped into `0..=MAX_DIMENSION`.
    pub fn padding_bottom(self, n: i32) -> (r: Self)
        ensures
            r == (Style { padding_bottom: clamp_dimension(n as int) as i32, props: with_bit64(self.props, PADDING_BOTTOM_KEY), ..self }),
    {
        let mut s = self;
        s.padding_bottom = validate_dimension(n, "padding_bottom");
        s.set_prop(PADDING_BOTTOM_KEY);
        s
    }

    /// Sets the padding from a CSS-style shorthand of one to four values;
    /// any other count leaves the style unchanged.
    pub fn padding_shorthand(self, values: &[i32]) -> (r: Self)
        ensures
            match shorthand_sides(values@) {
                Some(v) => r == with_padding(self, v.0, v.1, v.2, v.3),
                None => r == self,
            },
    {
        let (top, right, bottom, left, ok) = which_sides_int(values);
        if !ok {
            return self;
        }
        self.padding(top, right, bottom, left)
    }

    /// Same as `padding_shorthand`.
    pub fn padding_css(self, values: &[i32]) -> (r: Self)
        ensures
            match shorthand_sides(values@) {
                Some(v) => r == with_padding(self, v.0, v.1, v.2, v.3),
                None => r == self,
            },
    {
        self.padding_shorthand(values)
    }

    /// Sets the margin on all four sides (top, right, bottom, left), each
    /// clamped into `0..=MAX_DIMENSION`.
    pub fn margin(self, top: i32, right: i32, bottom: i32, left: i32) -> (r: Self)
        ensures
            r == with_margin(self, top, right, bottom, left),
    {
        let mut s = self;
        s.margin_top = validate_dimension(top, "margin_top");
        s.margin_right = validate_dimension(right, "margin_right");
        s.margin_bottom = validate_dimension(bottom, "margin_bottom");
        s.margin_left = validate_dimension(left, "margin_left");
        s.set_prop(MARGIN_TOP_KEY);
        s.set_prop(MARGIN_RIGHT_KEY);
        s.set_prop(MARGIN_BOTTOM_KEY);
        s.set_prop(MARGIN_LEFT_KEY);
        s
    }

    /// Sets the margin: `vertical` above and below, `horizontal` left and right.
    pub fn margin_2(self, vertical: i32, horizontal: i32) -> (r: Self)
        ensures
            r == with_margin(self, vertical, horizontal, vertical, horizontal),
    {
        self.margin(vertical, horizontal, vertical, horizontal)
    }

    /// Sets the margin: `top`, `horizontal` left and right, `bottom`.
    pub fn margin_3(self, top: i32, horizontal: i32, bottom: i32) -> (r: Self)
        ensures
            r == with_margin(self, top, horizontal, bottom, horizontal),
    {
        self.margin(top, horizontal, bottom, horizontal)
    }

    /// Sets the left margin, clamped into `0..=MAX_DIMENSION`.
    pub fn margin_left(self, n: i32) -> (r: Self)
        ensures
            r == (Style { margin_left: clamp_dimension(n as int) as i32, props: with_bit64(self.props, MARGIN_LEFT_KEY), ..self }),
    {
        let mut s = self;
        s.margin_left = validate_dimension(n, "margin_left");
        s.set_prop(MARGIN_LEFT_KEY);
        s
    }

    /// Sets the right margin, clamped into `0..=MAX_DIMENSION`.
    pub fn margin_right(self, n: i32) -> (r: Self)
        ensures
            r == (Style { margin_right: clamp_dimension(n as int) as i32, props: with_bit64(self.props, MARGIN_RIGHT_KEY), ..self }),
    {
        let mut s = self;
        s.margin_right = validate_dimension(n, "margin_right");
        s.set_prop(MARGIN_RIGHT_KEY);
        s
    }

    /// Sets the top margin, clamped into `0..=MAX_DIMENSION`.
    pub fn margin_top(self, n: i32) -> (r: Self)
        ensures
            r == (Style { margin_top: clamp_dimension(n as int) as i32, props: with_bit64(self.props, MARGIN_TOP_KEY), ..self }),
    {
        let mut s = self;
        s.margin_top = validate_dimension(n, "margin_top");
        s.set_prop(MARGIN_TOP_KEY);
        s
    }

    /// Sets the bottom margin, clamped into `0..=MAX_DIMENSION`.
    pub fn margin_bottom(self, n: i32) -> (r: Self)
        ensures
            r == (Style { margin_bottom: clamp_dimension(n as int) as i32, props: with_bit64(self.props, MARGIN_BOTTOM_KEY), ..self }),
    {
        let mut s = self;
        s.margin_bottom = validate_dimension(n, "margin_bottom");
        s.set_prop(MARGIN_BOTTOM_KEY);
        s
    }

    /// Sets the margin from a CSS-style shorthand of one to four values;
    /// any other count leaves the style unchanged.
    pub fn margin_shorthand(self, values: &[i32]) -> (r: Self)
        ensures
            match shorthand_sides(values@) {
                Some(v) => r == with_margin(self, v.0, v.1, v.2, v.3),
                None => r == self,
            },
    {
        let (top, right, bottom, left, ok) = which_sides_int(values);
        if !ok {
            return self;
        }
        self.margin(top, right, bottom, left)
    }

    /// Same as `margin_shorthand`.
    pub fn margin_css(self, values: &[i32]) -> (r: Self)
        ensures
            match shorthand_sides(values@) {
                Some(v) => r == with_margin(self, v.0, v.1, v.2, v.3),
                None => r == self,
            },
    {
        self.margin_shorthand(values)
    }

    /// Sets the alignment from one position (horizontal) or two
    /// (horizontal, vertical); any other count leaves the style unchanged.
    pub fn align_shorthand(self, positions: &[Position]) -> (r: Self)
        ensures
            r == with_align_shorthand(self, positions@),
    {
        if positions.len() == 1 {
            self.align_horizontal(positions[0])
        } else if positions.len() == 2 {
            self.align(positions[0], positions[1])
        } else {
            self
        }
    }

    /// Same as `align_shorthand`.
    pub fn align_pos(self, positions: &[Position]) -> (r: Self)
        ensures
            r == with_align_shorthand(self, positions@),
    {
        self.align_shorthand(positions)
    }
}

} // verus!
