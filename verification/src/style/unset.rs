//! Forgetting properties of a style.

use vstd::prelude::*;
use crate::style::keys::{ALIGN_HORIZONTAL_KEY, ALIGN_VERTICAL_KEY, ATTR_BLINK, ATTR_BOLD, ATTR_BORDER_BOTTOM, ATTR_BORDER_LEFT, ATTR_BORDER_RIGHT, ATTR_BORDER_TOP, ATTR_COLOR_WHITESPACE, ATTR_FAINT, ATTR_INLINE, ATTR_ITALIC, ATTR_REVERSE, ATTR_STRIKETHROUGH, ATTR_STRIKETHROUGH_SPACES, ATTR_UNDERLINE, ATTR_UNDERLINE_SPACES, BACKGROUND_KEY, BLINK_KEY, BOLD_KEY, BORDER_BOTTOM_BACKGROUND_KEY, BORDER_BOTTOM_FOREGROUND_KEY, BORDER_BOTTOM_KEY, BORDER_LEFT_BACKGROUND_KEY, BORDER_LEFT_FOREGROUND_KEY, BORDER_LEFT_KEY, BORDER_RIGHT_BACKGROUND_KEY, BORDER_RIGHT_FOREGROUND_KEY, BORDER_RIGHT_KEY, BORDER_STYLE_KEY, BORDER_TOP_BACKGROUND_KEY, BORDER_TOP_FOREGROUND_KEY, BORDER_TOP_KEY, COLOR_WHITESPACE_KEY, FAINT_KEY, FOREGROUND_KEY, HEIGHT_KEY, INLINE_KEY, ITALIC_KEY, MARGIN_BACKGROUND_KEY, MARGIN_BOTTOM_KEY, MARGIN_LEFT_KEY, MARGIN_RIGHT_KEY, MARGIN_TOP_KEY, MAX_HEIGHT_KEY, MAX_WIDTH_KEY, PADDING_BOTTOM_KEY, PADDING_LEFT_KEY, PADDING_RIGHT_KEY, PADDING_TOP_KEY, REVERSE_KEY, STRIKETHROUGH_KEY, STRIKETHROUGH_SPACES_KEY, TAB_WIDTH_DEFAULT, TAB_WIDTH_KEY, TRANSFORM_KEY, UNDERLINE_KEY, UNDERLINE_SPACES_KEY, WIDTH_KEY, group_style_bits, put_bit32, without_bit64};
use crate::border::{border_parts, hidden_border};
use crate::position::Position;
use crate::style::data::{Style, TextTransform, hidden_parts};

verus! {

broadcast use group_style_bits;

impl<T: TextTransform> Style<T> {

    /// Forgets the inline setting.
    pub fn unset_inline(self) -> (r: Self)
        ensures
            r == (Style { props: without_bit64(self.props, INLINE_KEY), attrs: put_bit32(self.attrs, ATTR_INLINE, false), ..self }),
    {
        let mut s = self;
        s.unset_prop(INLINE_KEY);
        s.set_attr(ATTR_INLINE, false);
        s
    }

    /// Forgets the bold setting.
    pub fn unset_bold(self) -> (r: Self)
        ensures
            r == (Style { props: without_bit64(self.props, BOLD_KEY), attrs: put_bit32(self.attrs, ATTR_BOLD, false), ..self }),
    {
        let mut s = self;
        s.unset_prop(BOLD_KEY);
        s.set_attr(ATTR_BOLD, false);
        s
    }

    /// Forgets the italic setting.
    pub fn unset_italic(self) -> (r: Self)
        ensures
            r == (Style { props: without_bit64(self.props, ITALIC_KEY), attrs: put_bit32(self.attrs, ATTR_ITALIC, false), ..self }),
    {
        let mut s = self;
        s.unset_prop(ITALIC_KEY);
        s.set_attr(ATTR_ITALIC, false);
        s
    }

    /// Forgets the underline setting.
    pub fn unset_underline(self) -> (r: Self)
        ensures
            r == (Style { props: without_bit64(self.props, UNDERLINE_KEY), attrs: put_bit32(self.attrs, ATTR_UNDERLINE, false), ..self }),
    {
        let mut s = self;
        s.unset_prop(UNDERLINE_KEY);
        s.set_attr(ATTR_UNDERLINE, false);
        s
    }

    /// Forgets the strikethrough setting.
    pub fn unset_strikethrough(self) -> (r: Self)
        ensures
            r == (Style { props: without_bit64(self.props, STRIKETHROUGH_KEY), attrs: put_bit32(self.attrs, ATTR_STRIKETHROUGH, false), ..self }),
    {
        let mut s = self;
        s.unset_prop(STRIKETHROUGH_KEY);
        s.set_attr(ATTR_STRIKETHROUGH, false);
        s
    }

    /// Forgets the reverse setting.
    pub fn unset_reverse(self) -> (r: Self)
        ensures
            r == (Style { props: without_bit64(self.props, REVERSE_KEY), attrs: put_bit32(self.attrs, ATTR_REVERSE, false), ..self }),
    {
        let mut s = self;
        s.unset_prop(REVERSE_KEY);
        s.set_attr(ATTR_REVERSE, false);
        s
    }

    /// Forgets the blink setting.
    pub fn unset_blink(self) -> (r: Self)
        ensures
            r == (Style { props: without_bit64(self.props, BLINK_KEY), attrs: put_bit32(self.attrs, ATTR_BLINK, false), ..self }),
    {
        let mut s = self;
        s.unset_prop(BLINK_KEY);
        s.set_attr(ATTR_BLINK, false);
        s
    }

    /// Forgets the faint setting.
    pub fn unset_faint(self) -> (r: Self)
        ensures
            r == (Style { props: without_bit64(self.props, FAINT_KEY), attrs: put_bit32(self.attrs, ATTR_FAINT, false), ..self }),
    {
        let mut s = self;
        s.unset_prop(FAINT_KEY);
        s.set_attr(ATTR_FAINT, false);
        s
    }

    /// Forgets the underline spaces setting.
    pub fn unset_underline_spaces(self) -> (r: Self)
        ensures
            r == (Style { props: without_bit64(self.props, UNDERLINE_SPACES_KEY), attrs: put_bit32(self.attrs, ATTR_UNDERLINE_SPACES, false), ..self }),
    {
        let mut s = self;
        s.unset_prop(UNDERLINE_SPACES_KEY);
        s.set_attr(ATTR_UNDERLINE_SPACES, false);
        s
    }

    /// Forgets the strikethrough spaces setting.
    pub fn unset_strikethrough_spaces(self) -> (r: Self)
        ensures
            r == (Style { props: without_bit64(self.props, STRIKETHROUGH_SPACES_KEY), attrs: put_bit32(self.attrs, ATTR_STRIKETHROUGH_SPACES, false), ..self }),
    {
        let mut s = self;
        s.unset_prop(STRIKETHROUGH_SPACES_KEY);
        s.set_attr(ATTR_STRIKETHROUGH_SPACES, false);
        s
    }

    /// Forgets the color whitespace setting.
    pub fn unset_color_whitespace(self) -> (r: Self)
        ensures
            r == (Style { props: without_bit64(self.props, COLOR_WHITESPACE_KEY), attrs: put_bit32(self.attrs, ATTR_COLOR_WHITESPACE, false), ..self }),
    {
        let mut s = self;
        s.unset_prop(COLOR_WHITESPACE_KEY);
        s.set_attr(ATTR_COLOR_WHITESPACE, false);
        s
    }

    /// Removes the top border: the side is no longer drawn.
    pub fn unset_border_top(self) -> (r: Self)
        ensures
            r == (Style { props: without_bit64(self.props, BORDER_TOP_KEY), attrs: put_bit32(self.attrs, ATTR_BORDER_TOP, false), ..self }),
    {
        let mut s = self;
        s.unset_prop(BORDER_TOP_KEY);
        s.set_attr(ATTR_BORDER_TOP, false);
        s
    }

    /// Removes the right border: the side is no longer drawn.
    pub fn unset_border_right(self) -> (r: Self)
        ensures
            r == (Style { props: without_bit64(self.props, BORDER_RIGHT_KEY), attrs: put_bit32(self.attrs, ATTR_BORDER_RIGHT, false), ..self }),
    {
        let mut s = self;
        s.unset_prop(BORDER_RIGHT_KEY);
        s.set_attr(ATTR_BORDER_RIGHT, false);
        s
    }

    /// Removes the bottom border: the side is no longer drawn.
    pub fn unset_border_bottom(self) -> (r: Self)
        ensures
            r == (Style { props: without_bit64(self.props, BORDER_BOTTOM_KEY), attrs: put_bit32(self.attrs, ATTR_BORDER_BOTTOM, false), ..self }),
    {
        let mut s = self;
        s.unset_prop(BORDER_BOTTOM_KEY);
        s.set_attr(ATTR_BORDER_BOTTOM, false);
        s
    }

    /// Removes the left border: the side is no longer drawn.
    pub fn unset_border_left(self) -> (r: Self)
        ensures
            r == (Style { props: without_bit64(self.props, BORDER_LEFT_KEY), attrs: put_bit32(self.attrs, ATTR_BORDER_LEFT, false), ..self }),
    {
        let mut s = self;
        s.unset_prop(BORDER_LEFT_KEY);
        s.set_attr(ATTR_BORDER_LEFT, false);
        s
    }

    /// Forgets the foreground setting.
    pub fn unset_foreground(self) -> (r: Self)
        ensures
            r == (Style { fg_color: None, props: without_bit64(self.props, FOREGROUND_KEY), ..self }),
    {
        let mut s = self;
        s.unset_prop(FOREGROUND_KEY);
        s.fg_color = None;
        s
    }

    /// Forgets the background setting.
    pub fn unset_background(self) -> (r: Self)
        ensures
            r == (Style { bg_color: None, props: without_bit64(self.props, BACKGROUND_KEY), ..self }),
    {
        let mut s = self;
        s.unset_prop(BACKGROUND_KEY);
        s.bg_color = None;
        s
    }

    /// Forgets the width setting.
    pub fn unset_width(self) -> (r: Self)
        ensures
            r == (Style { width: 0, props: without_bit64(self.props, WIDTH_KEY), ..self }),
    {
        let mut s = self;
        s.unset_prop(WIDTH_KEY);
        s.width = 0;
        s
    }

    /// Forgets the height setting.
    pub fn unset_height(self) -> (r: Self)
        ensures
            r == (Style { height: 0, props: without_bit64(self.props, HEIGHT_KEY), ..self }),
    {
        let mut s = self;
        s.unset_prop(HEIGHT_KEY);
        s.height = 0;
        s
    }

    /// Forgets the max width setting.
    pub fn unset_max_width(self) -> (r: Self)
        ensures
            r == (Style { max_width: 0, props: without_bit64(self.props, MAX_WIDTH_KEY), ..self }),
    {
        let mut s = self;
        s.unset_prop(MAX_WIDTH_KEY);
        s.max_width = 0;
        s
    }

    /// Forgets the max height setting.
    pub fn unset_max_height(self) -> (r: Self)
        ensures
            r == (Style { max_height: 0, props: without_bit64(self.props, MAX_HEIGHT_KEY), ..self }),
    {
        let mut s = self;
        s.unset_prop(MAX_HEIGHT_KEY);
        s.max_height = 0;
        s
    }

    /// Forgets the align horizontal setting.
    pub fn unset_align_horizontal(self) -> (r: Self)
        ensures
            r == (Style { align_horizontal: Position(0), props: without_bit64(self.props, ALIGN_HORIZONTAL_KEY), ..self }),
    {
        let mut s = self;
        s.unset_prop(ALIGN_HORIZONTAL_KEY);
        s.align_horizontal = Position(0);
        s
    }

    /// Forgets the align vertical setting.
    pub fn unset_align_vertical(self) -> (r: Self)
        ensures
            r == (Style { align_vertical: Position(0), props: without_bit64(self.props, ALIGN_VERTICAL_KEY), ..self }),
    {
        let mut s = self;
        s.unset_prop(ALIGN_VERTICAL_KEY);
        s.align_vertical = Position(0);
        s
    }

    /// Forgets the padding top setting.
    pub fn unset_padding_top(self) -> (r: Self)
        ensures
            r == (Style { padding_top: 0, props: without_bit64(self.props, PADDING_TOP_KEY), ..self }),
    {
        let mut s = self;
        s.unset_prop(PADDING_TOP_KEY);
        s.padding_top = 0;
        s
    }

    /// Forgets the padding right setting.
    pub fn unset_padding_right(self) -> (r: Self)
        ensures
            r == (Style { padding_right: 0, props: without_bit64(self.props, PADDING_RIGHT_KEY), ..self }),
    {
        let mut s = self;
        s.unset_prop(PADDING_RIGHT_KEY);
        s.padding_right = 0;
        s
    }

    /// Forgets the padding bottom setting.
    pub fn unset_padding_bottom(self) -> (r: Self)
        ensures
            r == (Style { padding_bottom: 0, props: without_bit64(self.props, PADDING_BOTTOM_KEY), ..self }),
    {
        let mut s = self;
        s.unset_prop(PADDING_BOTTOM_KEY);
        s.padding_bottom = 0;
        s
    }

    /// Forgets the padding left setting.
    pub fn unset_padding_left(self) -> (r: Self)
        ensures
            r == (Style { padding_left: 0, props: without_bit64(self.props, PADDING_LEFT_KEY), ..self }),
    {
        let mut s = self;
        s.unset_prop(PADDING_LEFT_KEY);
        s.padding_left = 0;
        s
    }

    /// Forgets the margin top setting.
    pub fn unset_margin_top(self) -> (r: Self)
        ensures
            r == (Style { margin_top: 0, props: without_bit64(self.props, MARGIN_TOP_KEY), ..self }),
    {
        let mut s = self;
        s.unset_prop(MARGIN_TOP_KEY);
        s.margin_top = 0;
        s
    }

    /// Forgets the margin right setting.
    pub fn unset_margin_right(self) -> (r: Self)
        ensures
            r == (Style { margin_right: 0, props: without_bit64(self.props, MARGIN_RIGHT_KEY), ..self }),
    {
        let mut s = self;
        s.unset_prop(MARGIN_RIGHT_KEY);
        s.margin_right = 0;
        s
    }

    /// Forgets the margin bottom setting.
    pub fn unset_margin_bottom(self) -> (r: Self)
        ensures
            r == (Style { margin_bottom: 0, props: without_bit64(self.props, MARGIN_BOTTOM_KEY), ..self }),
    {
        let mut s = self;
        s.unset_prop(MARGIN_BOTTOM_KEY);
        s.margin_bottom = 0;
        s
    }

    /// Forgets the margin left setting.
    pub fn unset_margin_left(self) -> (r: Self)
        ensures
            r == (Style { margin_left: 0, props: without_bit64(self.props, MARGIN_LEFT_KEY), ..self }),
    {
        let mut s = self;
        s.unset_prop(MARGIN_LEFT_KEY);
        s.margin_left = 0;
        s
    }

    /// Forgets the margin background setting.
    pub fn unset_margin_background(self) -> (r: Self)
        ensures
            r == (Style { margin_bg_color: None, props: without_bit64(self.props, MARGIN_BACKGROUND_KEY), ..self }),
    {
        let mut s = self;
        s.unset_prop(MARGIN_BACKGROUND_KEY);
        s.margin_bg_color = None;
        s
    }

    /// Forgets the border top foreground setting.
    pub fn unset_border_top_foreground(self) -> (r: Self)
        ensures
            r == (Style { border_top_fg_color: None, props: without_bit64(self.props, BORDER_TOP_FOREGROUND_KEY), ..self }),
    {
        let mut s = self;
        s.unset_prop(BORDER_TOP_FOREGROUND_KEY);
        s.border_top_fg_color = None;
        s
    }

    /// Forgets the border right foreground setting.
    pub fn unset_border_right_foreground(self) -> (r: Self)
        ensures
            r == (Style { border_right_fg_color: None, props: without_bit64(self.props, BORDER_RIGHT_FOREGROUND_KEY), ..self }),
    {
        let mut s = self;
        s.unset_prop(BORDER_RIGHT_FOREGROUND_KEY);
        s.border_right_fg_color = None;
        s
    }

    /// Forgets the border bottom foreground setting.
    pub fn unset_border_bottom_foreground(self) -> (r: Self)
        ensures
            r == (Style { border_bottom_fg_color: None, props: without_bit64(self.props, BORDER_BOTTOM_FOREGROUND_KEY), ..self }),
    {
        let mut s = self;
        s.unset_prop(BORDER_BOTTOM_FOREGROUND_KEY);
        s.border_bottom_fg_color = None;
        s
    }

    /// Forgets the border left foreground setting.
    pub fn unset_border_left_foreground(self) -> (r: Self)
        ensures
            r == (Style { border_left_fg_color: None, props: without_bit64(self.props, BORDER_LEFT_FOREGROUND_KEY), ..self }),
    {
        let mut s = self;
        s.unset_prop(BORDER_LEFT_FOREGROUND_KEY);
        s.border_left_fg_color = None;
        s
    }

    /// Forgets the border top background setting.
    pub fn unset_border_top_background(self) -> (r: Self)
        ensures
            r == (Style { border_top_bg_color: None, props: without_bit64(self.props, BORDER_TOP_BACKGROUND_KEY), ..self }),
    {
        let mut s = self;
        s.unset_prop(BORDER_TOP_BACKGROUND_KEY);
        s.border_top_bg_color = None;
        s
    }

    /// Forgets the border right background setting.
    pub fn unset_border_right_background(self) -> (r: Self)
        ensures
            r == (Style { border_right_bg_color: None, props: without_bit64(self.props, BORDER_RIGHT_BACKGROUND_KEY), ..self }),
    {
        let mut s = self;
        s.unset_prop(BORDER_RIGHT_BACKGROUND_KEY);
        s.border_right_bg_color = None;
        s
    }

    /// Forgets the border bottom background setting.
    pub fn unset_border_bottom_background(self) -> (r: Self)
        ensures
            r == (Style { border_bottom_bg_color: None, props: without_bit64(self.props, BORDER_BOTTOM_BACKGROUND_KEY), ..self }),
    {
        let mut s = self;
        s.unset_prop(BORDER_BOTTOM_BACKGROUND_KEY);
        s.border_bottom_bg_color = None;
        s
    }

    /// Forgets the border left background setting.
    pub fn unset_border_left_background(self) -> (r: Self)
        ensures
            r == (Style { border_left_bg_color: None, props: without_bit64(self.props, BORDER_LEFT_BACKGROUND_KEY), ..self }),
    {
        let mut s = self;
        s.unset_prop(BORDER_LEFT_BACKGROUND_KEY);
        s.border_left_bg_color = None;
        s
    }

    /// Forgets the tab width setting.
    pub fn unset_tab_width(self) -> (r: Self)
        ensures
            r == (Style { tab_width: TAB_WIDTH_DEFAULT, props: without_bit64(self.props, TAB_WIDTH_KEY), ..self }),
    {
        let mut s = self;
        s.unset_prop(TAB_WIDTH_KEY);
        s.tab_width = TAB_WIDTH_DEFAULT;
        s
    }

    /// Forgets the transform setting.
    pub fn unset_transform(self) -> (r: Self)
        ensures
            r == (Style { transform: None, props: without_bit64(self.props, TRANSFORM_KEY), ..self }),
    {
        let mut s = self;
        s.unset_prop(TRANSFORM_KEY);
        s.transform = None;
        s
    }

    /// Forgets both alignments.
    pub fn unset_align(self) -> (r: Self)
        ensures
            r == (Style { align_horizontal: Position(0), align_vertical: Position(0), props: without_bit64(without_bit64(self.props, ALIGN_HORIZONTAL_KEY), ALIGN_VERTICAL_KEY), ..self }),
    {
        let mut s = self;
        s.unset_prop(ALIGN_HORIZONTAL_KEY);
        s.unset_prop(ALIGN_VERTICAL_KEY);
        s.align_horizontal = Position(0);
        s.align_vertical = Position(0);
        s
    }

    /// Forgets the padding on all sides.
    pub fn unset_padding(self) -> (r: Self)
        ensures
            r == (Style { padding_top: 0, padding_right: 0, padding_bottom: 0, padding_left: 0, props: without_bit64(without_bit64(without_bit64(without_bit64(self.props, PADDING_TOP_KEY), PADDING_RIGHT_KEY), PADDING_BOTTOM_KEY), PADDING_LEFT_KEY), ..self }),
    {
        let mut s = self;
        s.unset_prop(PADDING_TOP_KEY);
        s.unset_prop(PADDING_RIGHT_KEY);
        s.unset_prop(PADDING_BOTTOM_KEY);
        s.unset_prop(PADDING_LEFT_KEY);
        s.padding_top = 0;
        s.padding_right = 0;
        s.padding_bottom = 0;
        s.padding_left = 0;
        s
    }

    /// Forgets the margins on all sides and their background.
    pub fn unset_margins(self) -> (r: Self)
        ensures
            r == (Style { margin_top: 0, margin_right: 0, margin_bottom: 0, margin_left: 0, margin_bg_color: None, props: without_bit64(without_bit64(without_bit64(without_bit64(without_bit64(self.props, MARGIN_TOP_KEY), MARGIN_RIGHT_KEY), MARGIN_BOTTOM_KEY), MARGIN_LEFT_KEY), MARGIN_BACKGROUND_KEY), ..self }),
    {
        let mut s = self;
        s.unset_prop(MARGIN_TOP_KEY);
        s.unset_prop(MARGIN_RIGHT_KEY);
        s.unset_prop(MARGIN_BOTTOM_KEY);
        s.unset_prop(MARGIN_LEFT_KEY);
        s.unset_prop(MARGIN_BACKGROUND_KEY);
        s.margin_top = 0;
        s.margin_right = 0;
        s.margin_bottom = 0;
        s.margin_left = 0;
        s.margin_bg_color = None;
        s
    }

    /// Forgets the foreground of all border sides.
    pub fn unset_border_foreground(self) -> (r: Self)
        ensures
            r == (Style { border_top_fg_color: None, border_right_fg_color: None, border_bottom_fg_color: None, border_left_fg_color: None, props: without_bit64(without_bit64(without_bit64(without_bit64(self.props, BORDER_TOP_FOREGROUND_KEY), BORDER_RIGHT_FOREGROUND_KEY), BORDER_BOTTOM_FOREGROUND_KEY), BORDER_LEFT_FOREGROUND_KEY), ..self }),
    {
        let mut s = self;
        s.unset_prop(BORDER_TOP_FOREGROUND_KEY);
        s.unset_prop(BORDER_RIGHT_FOREGROUND_KEY);
        s.unset_prop(BORDER_BOTTOM_FOREGROUND_KEY);
        s.unset_prop(BORDER_LEFT_FOREGROUND_KEY);
        s.border_top_fg_color = None;
        s.border_right_fg_color = None;
        s.border_bottom_fg_color = None;
        s.border_left_fg_color = None;
        s
    }

    /// Forgets the background of all border sides.
    pub fn unset_border_background(self) -> (r: Self)
        ensures
            r == (Style { border_top_bg_color: None, border_right_bg_color: None, border_bottom_bg_color: None, border_left_bg_color: None, props: without_bit64(without_bit64(without_bit64(without_bit64(self.props, BORDER_TOP_BACKGROUND_KEY), BORDER_RIGHT_BACKGROUND_KEY), BORDER_BOTTOM_BACKGROUND_KEY), BORDER_LEFT_BACKGROUND_KEY), ..self }),
    {
        let mut s = self;
        s.unset_prop(BORDER_TOP_BACKGROUND_KEY);
        s.unset_prop(BORDER_RIGHT_BACKGROUND_KEY);
        s.unset_prop(BORDER_BOTTOM_BACKGROUND_KEY);
        s.unset_prop(BORDER_LEFT_BACKGROUND_KEY);
        s.border_top_bg_color = None;
        s.border_right_bg_color = None;
        s.border_bottom_bg_color = None;
        s.border_left_bg_color = None;
        s
    }

    /// Forgets the border style and which sides are drawn.
    pub fn unset_border_style(self) -> (r: Self)
        ensures
            border_parts(r.border_style) == hidden_parts(),
            r == (Style {
                border_style: r.border_style,
                props: without_bit64(without_bit64(without_bit64(without_bit64(without_bit64(self.props, BORDER_STYLE_KEY), BORDER_TOP_KEY), BORDER_RIGHT_KEY), BORDER_BOTTOM_KEY), BORDER_LEFT_KEY),
                attrs: put_bit32(put_bit32(put_bit32(put_bit32(self.attrs, ATTR_BORDER_TOP, false), ATTR_BORDER_RIGHT, false), ATTR_BORDER_BOTTOM, false), ATTR_BORDER_LEFT, false),
                ..self
            }),
    {
        let mut s = self;
        s.unset_prop(BORDER_STYLE_KEY);
        s.unset_prop(BORDER_TOP_KEY);
        s.unset_prop(BORDER_RIGHT_KEY);
        s.unset_prop(BORDER_BOTTOM_KEY);
        s.unset_prop(BORDER_LEFT_KEY);
        s.border_style = hidden_border();
        s.set_attr(ATTR_BORDER_TOP, false);
        s.set_attr(ATTR_BORDER_RIGHT, false);
        s.set_attr(ATTR_BORDER_BOTTOM, false);
        s.set_attr(ATTR_BORDER_LEFT, false);
        s
    }

    /// Forgets the style's own text.
    pub fn unset_string(self) -> (r: Self)
        ensures
            r.value@ == Seq::<char>::empty(),
            r == (Style { value: r.value, ..self }),
    {
        let mut s = self;
        s.value = String::new();
        s
    }
}

} // verus!
