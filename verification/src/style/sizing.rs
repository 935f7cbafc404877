//! Width and height of a style.

use vstd::prelude::*;
use crate::style::keys::{HEIGHT_KEY, MAX_HEIGHT_KEY, MAX_WIDTH_KEY, WIDTH_KEY, group_style_bits, with_bit64};
use crate::security::{clamp_dimension, validate_dimension};
use crate::style::data::{Style, TextTransform};

verus! {

broadcast use group_style_bits;

impl<T: TextTransform> Style<T> {

    /// Sets the width, clamped into `0..=MAX_DIMENSION`.
    pub fn width(self, v: i32) -> (r: Self)
        ensures
            r == (Style { width: clamp_dimension(v as int) as i32, props: with_bit64(self.props, WIDTH_KEY), ..self }),
    {
        let mut s = self;
        s.width = validate_dimension(v, "width");
        s.set_prop(WIDTH_KEY);
        s
    }

    /// Sets the height, clamped into `0..=MAX_DIMENSION`.
    pub fn height(self, v: i32) -> (r: Self)
        ensures
            r == (Style { height: clamp_dimension(v as int) as i32, props: with_bit64(self.props, HEIGHT_KEY), ..self }),
    {
        let mut s = self;
        s.height = validate_dimension(v, "height");
        s.set_prop(HEIGHT_KEY);
        s
    }

    /// Sets the max width, clamped into `0..=MAX_DIMENSION`.
    pub fn max_width(self, v: i32) -> (r: Self)
        ensures
            r == (Style { max_width: clamp_dimension(v as int) as i32, props: with_bit64(self.props, MAX_WIDTH_KEY), ..self }),
    {
        let mut s = self;
        s.max_width = validate_dimension(v, "max_width");
        s.set_prop(MAX_WIDTH_KEY);
        s
    }

    /// Sets the max height, clamped into `0..=MAX_DIMENSION`.
    pub fn max_height(self, v: i32) -> (r: Self)
        ensures
            r == (Style { max_height: clamp_dimension(v as int) as i32, props: with_bit64(self.props, MAX_HEIGHT_KEY), ..self }),
    {
        let mut s = self;
        s.max_height = validate_dimension(v, "max_height");
        s.set_prop(MAX_HEIGHT_KEY);
        s
    }

}

} // verus!
