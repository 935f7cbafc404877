//! Tab width, text transformation and renderer of a style.

use vstd::prelude::*;
use crate::style::keys::{TAB_WIDTH_KEY, TRANSFORM_KEY, group_style_bits, with_bit64};
use crate::renderer::Renderer;
use crate::security::{clamp_tab_width, validate_tab_width};
use crate::style::data::{same_but_transform, Style, TextTransform};

verus! {

broadcast use group_style_bits;

impl<T: TextTransform> Style<T> {
    /// Sets the tab width: negative keeps tabs, zero removes them, larger
    /// values are capped at `MAX_DIMENSION`.
    pub fn tab_width(self, n: i32) -> (r: Self)
        ensures
            r == (Style { tab_width: clamp_tab_width(n as int) as i32, props: with_bit64(self.props, TAB_WIDTH_KEY), ..self }),
    {
        let mut s = self;
        s.tab_width = validate_tab_width(n);
        s.set_prop(TAB_WIDTH_KEY);
        s
    }

    /// Sets a transformation applied to the text before layout, in place
    /// of any set before.
    pub fn transform<F: TextTransform>(self, f: F) -> (r: Style<F>)
        ensures
            r.transform is Some,
            r.props == with_bit64(self.props, TRANSFORM_KEY),
            same_but_transform(r, self),
    {
        let mut s = Style {
            r: self.r,
            props: self.props,
            value: self.value,
            attrs: self.attrs,
            fg_color: self.fg_color,
            bg_color: self.bg_color,
            width: self.width,
            height: self.height,
            max_width: self.max_width,
            max_height: self.max_height,
            align_horizontal: self.align_horizontal,
            align_vertical: self.align_vertical,
            padding_top: self.padding_top,
            padding_right: self.padding_right,
            padding_bottom: self.padding_bottom,
            padding_left: self.padding_left,
            margin_top: self.margin_top,
            margin_right: self.margin_right,
            margin_bottom: self.margin_bottom,
            margin_left: self.margin_left,
            margin_bg_color: self.margin_bg_color,
            border_style: self.border_style,
            border_top_fg_color: self.border_top_fg_color,
            border_right_fg_color: self.border_right_fg_color,
            border_bottom_fg_color: self.border_bottom_fg_color,
            border_left_fg_color: self.border_left_fg_color,
            border_top_bg_color: self.border_top_bg_color,
            border_right_bg_color: self.border_right_bg_color,
            border_bottom_bg_color: self.border_bottom_bg_color,
            border_left_bg_color: self.border_left_bg_color,
            tab_width: self.tab_width,
            transform: Some(f),
        };
        s.set_prop(TRANSFORM_KEY);
        s
    }

    /// Sets the renderer used when rendering.
    pub fn renderer(self, r: Renderer) -> (out: Self)
        ensures
            out == (Style { r: Some(r), ..self }),
    {
        let mut s = self;
        s.r = Some(r);
        s
    }
}

} // verus!
