//! Reading a style's properties: set values, or the defaults.

use vstd::prelude::*;
use crate::style::keys::{ALIGN_HORIZONTAL_KEY, ALIGN_VERTICAL_KEY, ATTR_BLINK, ATTR_BOLD, ATTR_BORDER_BOTTOM, ATTR_BORDER_LEFT, ATTR_BORDER_RIGHT, ATTR_BORDER_TOP, ATTR_COLOR_WHITESPACE, ATTR_FAINT, ATTR_INLINE, ATTR_ITALIC, ATTR_REVERSE, ATTR_STRIKETHROUGH, ATTR_STRIKETHROUGH_SPACES, ATTR_UNDERLINE, ATTR_UNDERLINE_SPACES, BACKGROUND_KEY, BLINK_KEY, BOLD_KEY, BORDER_BOTTOM_KEY, BORDER_LEFT_KEY, BORDER_RIGHT_KEY, BORDER_STYLE_KEY, BORDER_TOP_KEY, COLOR_WHITESPACE_KEY, FAINT_KEY, FOREGROUND_KEY, HEIGHT_KEY, INLINE_KEY, ITALIC_KEY, MARGIN_BACKGROUND_KEY, MARGIN_BOTTOM_KEY, MARGIN_LEFT_KEY, MARGIN_RIGHT_KEY, MARGIN_TOP_KEY, MAX_HEIGHT_KEY, MAX_WIDTH_KEY, PADDING_BOTTOM_KEY, PADDING_LEFT_KEY, PADDING_RIGHT_KEY, PADDING_TOP_KEY, REVERSE_KEY, STRIKETHROUGH_KEY, STRIKETHROUGH_SPACES_KEY, TAB_WIDTH_DEFAULT, TAB_WIDTH_KEY, TRANSFORM_KEY, UNDERLINE_KEY, UNDERLINE_SPACES_KEY, WIDTH_KEY, group_style_bits};
use crate::border::{border_parts, hidden_border, Border};
use crate::color::Color;
use crate::position::Position;
use crate::strings::{push_char, to_owned_string};
use crate::style::data::{Style, TextTransform, hidden_parts};

verus! {

broadcast use group_style_bits;

impl<T: TextTransform> Style<T> {
    /// Whether text is inline: newlines are removed: set and true.
    pub fn get_inline(&self) -> (b: bool)
        ensures
            b == self.flag(INLINE_KEY, ATTR_INLINE),
    {
        self.is_set(INLINE_KEY) && self.get_attr(ATTR_INLINE)
    }

    /// Whether text is bold: set and true.
    pub fn get_bold(&self) -> (b: bool)
        ensures
            b == self.flag(BOLD_KEY, ATTR_BOLD),
    {
        self.is_set(BOLD_KEY) && self.get_attr(ATTR_BOLD)
    }

    /// Whether text is italic: set and true.
    pub fn get_italic(&self) -> (b: bool)
        ensures
            b == self.flag(ITALIC_KEY, ATTR_ITALIC),
    {
        self.is_set(ITALIC_KEY) && self.get_attr(ATTR_ITALIC)
    }

    /// Whether text is underlined: set and true.
    pub fn get_underline(&self) -> (b: bool)
        ensures
            b == self.flag(UNDERLINE_KEY, ATTR_UNDERLINE),
    {
        self.is_set(UNDERLINE_KEY) && self.get_attr(ATTR_UNDERLINE)
    }

    /// Whether text is struck through: set and true.
    pub fn get_strikethrough(&self) -> (b: bool)
        ensures
            b == self.flag(STRIKETHROUGH_KEY, ATTR_STRIKETHROUGH),
    {
        self.is_set(STRIKETHROUGH_KEY) && self.get_attr(ATTR_STRIKETHROUGH)
    }

    /// Whether text is reversed colors: set and true.
    pub fn get_reverse(&self) -> (b: bool)
        ensures
            b == self.flag(REVERSE_KEY, ATTR_REVERSE),
    {
        self.is_set(REVERSE_KEY) && self.get_attr(ATTR_REVERSE)
    }

    /// Whether text is blinking: set and true.
    pub fn get_blink(&self) -> (b: bool)
        ensures
            b == self.flag(BLINK_KEY, ATTR_BLINK),
    {
        self.is_set(BLINK_KEY) && self.get_attr(ATTR_BLINK)
    }

    /// Whether text is faint: set and true.
    pub fn get_faint(&self) -> (b: bool)
        ensures
            b == self.flag(FAINT_KEY, ATTR_FAINT),
    {
        self.is_set(FAINT_KEY) && self.get_attr(ATTR_FAINT)
    }

    /// Whether text is spaces underlined: set and true.
    pub fn get_underline_spaces(&self) -> (b: bool)
        ensures
            b == self.flag(UNDERLINE_SPACES_KEY, ATTR_UNDERLINE_SPACES),
    {
        self.is_set(UNDERLINE_SPACES_KEY) && self.get_attr(ATTR_UNDERLINE_SPACES)
    }

    /// Whether text is spaces struck through: set and true.
    pub fn get_strikethrough_spaces(&self) -> (b: bool)
        ensures
            b == self.flag(STRIKETHROUGH_SPACES_KEY, ATTR_STRIKETHROUGH_SPACES),
    {
        self.is_set(STRIKETHROUGH_SPACES_KEY) && self.get_attr(ATTR_STRIKETHROUGH_SPACES)
    }

    /// Whether text is whitespace colored with the background: set and true.
    pub fn get_color_whitespace(&self) -> (b: bool)
        ensures
            b == self.flag(COLOR_WHITESPACE_KEY, ATTR_COLOR_WHITESPACE),
    {
        self.is_set(COLOR_WHITESPACE_KEY) && self.get_attr(ATTR_COLOR_WHITESPACE)
    }

    /// The width: the value when set, else 0.
    pub fn get_width(&self) -> (v: i32)
        ensures
            v == self.dim(WIDTH_KEY, self.width),
    {
        if self.is_set(WIDTH_KEY) { self.width } else { 0 }
    }

    /// The height: the value when set, else 0.
    pub fn get_height(&self) -> (v: i32)
        ensures
            v == self.dim(HEIGHT_KEY, self.height),
    {
        if self.is_set(HEIGHT_KEY) { self.height } else { 0 }
    }

    /// The max width: the value when set, else 0.
    pub fn get_max_width(&self) -> (v: i32)
        ensures
            v == self.dim(MAX_WIDTH_KEY, self.max_width),
    {
        if self.is_set(MAX_WIDTH_KEY) { self.max_width } else { 0 }
    }

    /// The max height: the value when set, else 0.
    pub fn get_max_height(&self) -> (v: i32)
        ensures
            v == self.dim(MAX_HEIGHT_KEY, self.max_height),
    {
        if self.is_set(MAX_HEIGHT_KEY) { self.max_height } else { 0 }
    }

    /// The padding top: the value when set, else 0.
    pub fn get_padding_top(&self) -> (v: i32)
        ensures
            v == self.dim(PADDING_TOP_KEY, self.padding_top),
    {
        if self.is_set(PADDING_TOP_KEY) { self.padding_top } else { 0 }
    }

    /// The padding right: the value when set, else 0.
    pub fn get_padding_right(&self) -> (v: i32)
        ensures
            v == self.dim(PADDING_RIGHT_KEY, self.padding_right),
    {
        if self.is_set(PADDING_RIGHT_KEY) { self.padding_right } else { 0 }
    }

    /// The padding bottom: the value when set, else 0.
    pub fn get_padding_bottom(&self) -> (v: i32)
        ensures
            v == self.dim(PADDING_BOTTOM_KEY, self.padding_bottom),
    {
        if self.is_set(PADDING_BOTTOM_KEY) { self.padding_bottom } else { 0 }
    }

    /// The padding left: the value when set, else 0.
    pub fn get_padding_left(&self) -> (v: i32)
        ensures
            v == self.dim(PADDING_LEFT_KEY, self.padding_left),
    {
        if self.is_set(PADDING_LEFT_KEY) { self.padding_left } else { 0 }
    }

    /// The margin top: the value when set, else 0.
    pub fn get_margin_top(&self) -> (v: i32)
        ensures
            v == self.dim(MARGIN_TOP_KEY, self.margin_top),
    {
        if self.is_set(MARGIN_TOP_KEY) { self.margin_top } else { 0 }
    }

    /// The margin right: the value when set, else 0.
    pub fn get_margin_right(&self) -> (v: i32)
        ensures
            v == self.dim(MARGIN_RIGHT_KEY, self.margin_right),
    {
        if self.is_set(MARGIN_RIGHT_KEY) { self.margin_right } else { 0 }
    }

    /// The margin bottom: the value when set, else 0.
    pub fn get_margin_bottom(&self) -> (v: i32)
        ensures
            v == self.dim(MARGIN_BOTTOM_KEY, self.margin_bottom),
    {
        if self.is_set(MARGIN_BOTTOM_KEY) { self.margin_bottom } else { 0 }
    }

    /// The margin left: the value when set, else 0.
    pub fn get_margin_left(&self) -> (v: i32)
        ensures
            v == self.dim(MARGIN_LEFT_KEY, self.margin_left),
    {
        if self.is_set(MARGIN_LEFT_KEY) { self.margin_left } else { 0 }
    }

    /// The foreground color token, when set.
    pub fn get_foreground(&self) -> (c: Option<Color>)
        ensures
            match c {
                Some(col) => self.has(FOREGROUND_KEY) && self.fg_color is Some && col.0@ == self.fg_color->0@,
                None => !self.has(FOREGROUND_KEY) || self.fg_color is None,
            },
    {
        if self.is_set(FOREGROUND_KEY) {
            match &self.fg_color {
                Some(t) => Some(Color(to_owned_string(t.as_str()))),
                None => None,
            }
        } else {
            None
        }
    }

    /// The background color token, when set.
    pub fn get_background(&self) -> (c: Option<Color>)
        ensures
            match c {
                Some(col) => self.has(BACKGROUND_KEY) && self.bg_color is Some && col.0@ == self.bg_color->0@,
                None => !self.has(BACKGROUND_KEY) || self.bg_color is None,
            },
    {
        if self.is_set(BACKGROUND_KEY) {
            match &self.bg_color {
                Some(t) => Some(Color(to_owned_string(t.as_str()))),
                None => None,
            }
        } else {
            None
        }
    }

    /// The margin background color token, when set.
    pub fn get_margin_background(&self) -> (c: Option<Color>)
        ensures
            match c {
                Some(col) => self.has(MARGIN_BACKGROUND_KEY) && self.margin_bg_color is Some && col.0@ == self.margin_bg_color->0@,
                None => !self.has(MARGIN_BACKGROUND_KEY) || self.margin_bg_color is None,
            },
    {
        if self.is_set(MARGIN_BACKGROUND_KEY) {
            match &self.margin_bg_color {
                Some(t) => Some(Color(to_owned_string(t.as_str()))),
                None => None,
            }
        } else {
            None
        }
    }

    /// The align horizontal: the value when set, else the top/left edge.
    pub fn get_align_horizontal(&self) -> (p: Position)
        ensures
            p == self.pos(ALIGN_HORIZONTAL_KEY, self.align_horizontal),
    {
        if self.is_set(ALIGN_HORIZONTAL_KEY) { self.align_horizontal } else { Position(0) }
    }

    /// The align vertical: the value when set, else the top/left edge.
    pub fn get_align_vertical(&self) -> (p: Position)
        ensures
            p == self.pos(ALIGN_VERTICAL_KEY, self.align_vertical),
    {
        if self.is_set(ALIGN_VERTICAL_KEY) { self.align_vertical } else { Position(0) }
    }

    /// The horizontal alignment.
    pub fn get_align(&self) -> (p: Position)
        ensures
            p == self.pos(ALIGN_HORIZONTAL_KEY, self.align_horizontal),
    {
        self.get_align_horizontal()
    }

    /// The padding: top, right, bottom, left.
    pub fn get_padding(&self) -> (p: (i32, i32, i32, i32))
        ensures
            p == (
                self.dim(PADDING_TOP_KEY, self.padding_top),
                self.dim(PADDING_RIGHT_KEY, self.padding_right),
                self.dim(PADDING_BOTTOM_KEY, self.padding_bottom),
                self.dim(PADDING_LEFT_KEY, self.padding_left),
            ),
    {
        (self.get_padding_top(), self.get_padding_right(), self.get_padding_bottom(), self.get_padding_left())
    }

    /// The margins: top, right, bottom, left.
    pub fn get_margin(&self) -> (p: (i32, i32, i32, i32))
        ensures
            p == (
                self.dim(MARGIN_TOP_KEY, self.margin_top),
                self.dim(MARGIN_RIGHT_KEY, self.margin_right),
                self.dim(MARGIN_BOTTOM_KEY, self.margin_bottom),
                self.dim(MARGIN_LEFT_KEY, self.margin_left),
            ),
    {
        (self.get_margin_top(), self.get_margin_right(), self.get_margin_bottom(), self.get_margin_left())
    }

    /// The border style when set, else the hidden border.
    pub fn get_border_style(&self) -> (b: Border)
        ensures
            self.has(BORDER_STYLE_KEY) ==> b == self.border_style,
            !self.has(BORDER_STYLE_KEY) ==> border_parts(b) == hidden_parts(),
    {
        if self.is_set(BORDER_STYLE_KEY) { self.border_style } else { hidden_border() }
    }

    /// The border style and which sides are drawn.
    pub fn get_border(&self) -> (r: (Border, bool, bool, bool, bool))
        ensures
            self.has(BORDER_STYLE_KEY) ==> r.0 == self.border_style,
            !self.has(BORDER_STYLE_KEY) ==> border_parts(r.0) == hidden_parts(),
            r.1 == self.side(BORDER_TOP_KEY, ATTR_BORDER_TOP),
            r.2 == self.side(BORDER_RIGHT_KEY, ATTR_BORDER_RIGHT),
            r.3 == self.side(BORDER_BOTTOM_KEY, ATTR_BORDER_BOTTOM),
            r.4 == self.side(BORDER_LEFT_KEY, ATTR_BORDER_LEFT),
    {
        (self.get_border_style(), self.get_border_top(), self.get_border_right(), self.get_border_bottom(), self.get_border_left())
    }

    /// Whether the top border is drawn: when set and enabled.
    pub fn get_border_top(&self) -> (b: bool)
        ensures
            b == self.side(BORDER_TOP_KEY, ATTR_BORDER_TOP),
    {
        self.is_set(BORDER_TOP_KEY) && self.get_attr(ATTR_BORDER_TOP)
    }

    /// Cells the top border takes: one when drawn.
    pub fn get_border_top_size(&self) -> (n: i32)
        ensures
            n == (if self.side(BORDER_TOP_KEY, ATTR_BORDER_TOP) { 1i32 } else { 0i32 }),
    {
        if self.get_border_top() { 1 } else { 0 }
    }

    /// Whether the right border is drawn: when set and enabled.
    pub fn get_border_right(&self) -> (b: bool)
        ensures
            b == self.side(BORDER_RIGHT_KEY, ATTR_BORDER_RIGHT),
    {
        self.is_set(BORDER_RIGHT_KEY) && self.get_attr(ATTR_BORDER_RIGHT)
    }

    /// Cells the right border takes: one when drawn.
    pub fn get_border_right_size(&self) -> (n: i32)
        ensures
            n == (if self.side(BORDER_RIGHT_KEY, ATTR_BORDER_RIGHT) { 1i32 } else { 0i32 }),
    {
        if self.get_border_right() { 1 } else { 0 }
    }

    /// Whether the bottom border is drawn: when set and enabled.
    pub fn get_border_bottom(&self) -> (b: bool)
        ensures
            b == self.side(BORDER_BOTTOM_KEY, ATTR_BORDER_BOTTOM),
    {
        self.is_set(BORDER_BOTTOM_KEY) && self.get_attr(ATTR_BORDER_BOTTOM)
    }

    /// Cells the bottom border takes: one when drawn.
    pub fn get_border_bottom_size(&self) -> (n: i32)
        ensures
            n == (if self.side(BORDER_BOTTOM_KEY, ATTR_BORDER_BOTTOM) { 1i32 } else { 0i32 }),
    {
        if self.get_border_bottom() { 1 } else { 0 }
    }

    /// Whether the left border is drawn: when set and enabled.
    pub fn get_border_left(&self) -> (b: bool)
        ensures
            b == self.side(BORDER_LEFT_KEY, ATTR_BORDER_LEFT),
    {
        self.is_set(BORDER_LEFT_KEY) && self.get_attr(ATTR_BORDER_LEFT)
    }

    /// Cells the left border takes: one when drawn.
    pub fn get_border_left_size(&self) -> (n: i32)
        ensures
            n == (if self.side(BORDER_LEFT_KEY, ATTR_BORDER_LEFT) { 1i32 } else { 0i32 }),
    {
        if self.get_border_left() { 1 } else { 0 }
    }

    /// The tab width: the value when set, else 4.
    pub fn get_tab_width(&self) -> (n: i32)
        ensures
            n == (if self.has(TAB_WIDTH_KEY) { self.tab_width } else { TAB_WIDTH_DEFAULT }),
    {
        if self.is_set(TAB_WIDTH_KEY) { self.tab_width } else { TAB_WIDTH_DEFAULT }
    }

    /// `Some("function")` when a transformation is set, else `None`.
    pub fn get_transform(&self) -> (t: Option<String>)
        ensures
            match t {
                Some(s) => self.has(TRANSFORM_KEY) && self.transform is Some && s@ == seq!['f', 'u', 'n', 'c', 't', 'i', 'o', 'n'],
                None => !self.has(TRANSFORM_KEY) || self.transform is None,
            },
    {
        if self.is_set(TRANSFORM_KEY) && self.transform.is_some() {
            let mut s = String::new();
            push_char(&mut s, 'f');
            push_char(&mut s, 'u');
            push_char(&mut s, 'n');
            push_char(&mut s, 'c');
            push_char(&mut s, 't');
            push_char(&mut s, 'i');
            push_char(&mut s, 'o');
            push_char(&mut s, 'n');
            assert(s@ =~= seq!['f', 'u', 'n', 'c', 't', 'i', 'o', 'n']);
            Some(s)
        } else {
            None
        }
    }

    /// Padding on the left and right.
    pub fn get_horizontal_padding(&self) -> (n: i32)
        requires
            self.wf(),
        ensures
            n == self.dim(PADDING_LEFT_KEY, self.padding_left) + self.dim(PADDING_RIGHT_KEY, self.padding_right),
    {
        self.get_padding_left() + self.get_padding_right()
    }

    /// Padding on the top and bottom.
    pub fn get_vertical_padding(&self) -> (n: i32)
        requires
            self.wf(),
        ensures
            n == self.dim(PADDING_TOP_KEY, self.padding_top) + self.dim(PADDING_BOTTOM_KEY, self.padding_bottom),
    {
        self.get_padding_top() + self.get_padding_bottom()
    }

    /// Margins on the left and right.
    pub fn get_horizontal_margins(&self) -> (n: i32)
        requires
            self.wf(),
        ensures
            n == self.dim(MARGIN_LEFT_KEY, self.margin_left) + self.dim(MARGIN_RIGHT_KEY, self.margin_right),
    {
        self.get_margin_left() + self.get_margin_right()
    }

    /// Margins on the top and bottom.
    pub fn get_vertical_margins(&self) -> (n: i32)
        requires
            self.wf(),
        ensures
            n == self.dim(MARGIN_TOP_KEY, self.margin_top) + self.dim(MARGIN_BOTTOM_KEY, self.margin_bottom),
    {
        self.get_margin_top() + self.get_margin_bottom()
    }

    /// Cells the left and right borders take.
    pub fn get_horizontal_border_size(&self) -> (n: i32)
        ensures
            n == self.h_border(),
    {
        self.get_border_left_size() + self.get_border_right_size()
    }

    /// Cells the top and bottom borders take.
    pub fn get_vertical_border_size(&self) -> (n: i32)
        ensures
            n == self.v_border(),
    {
        self.get_border_top_size() + self.get_border_bottom_size()
    }

    /// Cells taken left and right of the content: padding, border, margins.
    pub fn get_horizontal_frame_size(&self) -> (n: i32)
        requires
            self.wf(),
        ensures
            n == self.h_frame(),
    {
        self.get_horizontal_padding() + self.get_horizontal_border_size() + self.get_horizontal_margins()
    }

    /// Lines taken above and below the content: padding, border, margins.
    pub fn get_vertical_frame_size(&self) -> (n: i32)
        requires
            self.wf(),
        ensures
            n == self.v_frame(),
    {
        self.get_vertical_padding() + self.get_vertical_border_size() + self.get_vertical_margins()
    }

    /// The horizontal and vertical frame sizes.
    pub fn get_frame_size(&self) -> (n: (i32, i32))
        requires
            self.wf(),
        ensures
            n.0 == self.h_frame() && n.1 == self.v_frame(),
    {
        (self.get_horizontal_frame_size(), self.get_vertical_frame_size())
    }
}

} // verus!
