//! Boolean text attributes.

use vstd::prelude::*;
use crate::style::keys::{ATTR_BLINK, ATTR_BOLD, ATTR_COLOR_WHITESPACE, ATTR_FAINT, ATTR_INLINE, ATTR_ITALIC, ATTR_REVERSE, ATTR_STRIKETHROUGH, ATTR_STRIKETHROUGH_SPACES, ATTR_UNDERLINE, ATTR_UNDERLINE_SPACES, BLINK_KEY, BOLD_KEY, COLOR_WHITESPACE_KEY, FAINT_KEY, INLINE_KEY, ITALIC_KEY, REVERSE_KEY, STRIKETHROUGH_KEY, STRIKETHROUGH_SPACES_KEY, UNDERLINE_KEY, UNDERLINE_SPACES_KEY, group_style_bits, put_bit32, with_bit64};
use crate::style::data::{Style, TextTransform};

verus! {

broadcast use group_style_bits;

impl<T: TextTransform> Style<T> {
    /// Sets whether text is inline: newlines are removed.
    pub fn inline(self, v: bool) -> (r: Self)
        ensures
            r == (Style { props: with_bit64(self.props, INLINE_KEY), attrs: put_bit32(self.attrs, ATTR_INLINE, v), ..self }),
    {
        let mut s = self;
        s.set_attr(ATTR_INLINE, v);
        s.set_prop(INLINE_KEY);
        s
    }

    /// Sets whether text is bold.
    pub fn bold(self, v: bool) -> (r: Self)
        ensures
            r == (Style { props: with_bit64(self.props, BOLD_KEY), attrs: put_bit32(self.attrs, ATTR_BOLD, v), ..self }),
    {
        let mut s = self;
        s.set_attr(ATTR_BOLD, v);
        s.set_prop(BOLD_KEY);
        s
    }

    /// Sets whether text is italic.
    pub fn italic(self, v: bool) -> (r: Self)
        ensures
            r == (Style { props: with_bit64(self.props, ITALIC_KEY), attrs: put_bit32(self.attrs, ATTR_ITALIC, v), ..self }),
    {
        let mut s = self;
        s.set_attr(ATTR_ITALIC, v);
        s.set_prop(ITALIC_KEY);
        s
    }

    /// Sets whether text is underlined.
    pub fn underline(self, v: bool) -> (r: Self)
        ensures
            r == (Style { props: with_bit64(self.props, UNDERLINE_KEY), attrs: put_bit32(self.attrs, ATTR_UNDERLINE, v), ..self }),
    {
        let mut s = self;
        s.set_attr(ATTR_UNDERLINE, v);
        s.set_prop(UNDERLINE_KEY);
        s
    }

    /// Sets whether text is struck through.
    pub fn strikethrough(self, v: bool) -> (r: Self)
        ensures
            r == (Style { props: with_bit64(self.props, STRIKETHROUGH_KEY), attrs: put_bit32(self.attrs, ATTR_STRIKETHROUGH, v), ..self }),
    {
        let mut s = self;
        s.set_attr(ATTR_STRIKETHROUGH, v);
        s.set_prop(STRIKETHROUGH_KEY);
        s
    }

    /// Sets whether text is reversed colors.
    pub fn reverse(self, v: bool) -> (r: Self)
        ensures
            r == (Style { props: with_bit64(self.props, REVERSE_KEY), attrs: put_bit32(self.attrs, ATTR_REVERSE, v), ..self }),
    {
        let mut s = self;
        s.set_attr(ATTR_REVERSE, v);
        s.set_prop(REVERSE_KEY);
        s
    }

    /// Sets whether text is blinking.
    pub fn blink(self, v: bool) -> (r: Self)
        ensures
            r == (Style { props: with_bit64(self.props, BLINK_KEY), attrs: put_bit32(self.attrs, ATTR_BLINK, v), ..self }),
    {
        let mut s = self;
        s.set_attr(ATTR_BLINK, v);
        s.set_prop(BLINK_KEY);
        s
    }

    /// Sets whether text is faint.
    pub fn faint(self, v: bool) -> (r: Self)
        ensures
            r == (Style { props: with_bit64(self.props, FAINT_KEY), attrs: put_bit32(self.attrs, ATTR_FAINT, v), ..self }),
    {
        let mut s = self;
        s.set_attr(ATTR_FAINT, v);
        s.set_prop(FAINT_KEY);
        s
    }

    /// Sets whether text is spaces underlined.
    pub fn underline_spaces(self, v: bool) -> (r: Self)
        ensures
            r == (Style { props: with_bit64(self.props, UNDERLINE_SPACES_KEY), attrs: put_bit32(self.attrs, ATTR_UNDERLINE_SPACES, v), ..self }),
    {
        let mut s = self;
        s.set_attr(ATTR_UNDERLINE_SPACES, v);
        s.set_prop(UNDERLINE_SPACES_KEY);
        s
    }

    /// Sets whether text is spaces struck through.
    pub fn strikethrough_spaces(self, v: bool) -> (r: Self)
        ensures
            r == (Style { props: with_bit64(self.props, STRIKETHROUGH_SPACES_KEY), attrs: put_bit32(self.attrs, ATTR_STRIKETHROUGH_SPACES, v), ..self }),
    {
        let mut s = self;
        s.set_attr(ATTR_STRIKETHROUGH_SPACES, v);
        s.set_prop(STRIKETHROUGH_SPACES_KEY);
        s
    }

    /// Sets whether text is whitespace colored with the background.
    pub fn color_whitespace(self, v: bool) -> (r: Self)
        ensures
            r == (Style { props: with_bit64(self.props, COLOR_WHITESPACE_KEY), attrs: put_bit32(self.attrs, ATTR_COLOR_WHITESPACE, v), ..self }),
    {
        let mut s = self;
        s.set_attr(ATTR_COLOR_WHITESPACE, v);
        s.set_prop(COLOR_WHITESPACE_KEY);
        s
    }
}

} // verus!
