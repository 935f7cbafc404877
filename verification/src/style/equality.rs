//! Comparing styles by the properties they render with.

use vstd::prelude::*;
use crate::border::{border_parts, Border};
use crate::color::Color;
use crate::strings::to_owned_string;
use crate::renderer::Renderer;
use crate::style::data::{hidden_parts, Style, TextTransform};
use crate::style::frame::opt_view;
use crate::style::keys::{
    ATTR_BLINK, ATTR_BOLD, ATTR_COLOR_WHITESPACE, ATTR_FAINT, ATTR_INLINE, ATTR_ITALIC,
    ATTR_REVERSE, ATTR_STRIKETHROUGH, ATTR_STRIKETHROUGH_SPACES, ATTR_UNDERLINE,
    ATTR_UNDERLINE_SPACES, ATTR_BORDER_BOTTOM, ATTR_BORDER_LEFT, ATTR_BORDER_RIGHT,
    ATTR_BORDER_TOP, BACKGROUND_KEY, BLINK_KEY, BOLD_KEY, BORDER_BOTTOM_KEY, BORDER_LEFT_KEY,
    BORDER_RIGHT_KEY, BORDER_STYLE_KEY, BORDER_TOP_KEY, COLOR_WHITESPACE_KEY, FAINT_KEY,
    FOREGROUND_KEY, HEIGHT_KEY, INLINE_KEY, ITALIC_KEY, MARGIN_BACKGROUND_KEY, MARGIN_BOTTOM_KEY, MARGIN_LEFT_KEY,
    MARGIN_RIGHT_KEY, MARGIN_TOP_KEY, MAX_HEIGHT_KEY, MAX_WIDTH_KEY, PADDING_BOTTOM_KEY,
    PADDING_LEFT_KEY, PADDING_RIGHT_KEY, PADDING_TOP_KEY, REVERSE_KEY, STRIKETHROUGH_KEY,
    STRIKETHROUGH_SPACES_KEY, TAB_WIDTH_DEFAULT, TAB_WIDTH_KEY, UNDERLINE_KEY,
    UNDERLINE_SPACES_KEY, WIDTH_KEY, ALIGN_HORIZONTAL_KEY, ALIGN_VERTICAL_KEY,
};

verus! {

/// A color property as its getter reports it: the token when set.
pub open spec fn color_prop<T>(s: Style<T>, k: u64, c: Option<String>) -> Option<Seq<char>> {
    if s.has(k) {
        match c {
            Some(t) => Some(t@),
            None => None,
        }
    } else {
        None
    }
}

/// The parts of the border the style draws with.
pub open spec fn border_view<T>(s: Style<T>) -> Seq<Seq<char>> {
    if s.has(BORDER_STYLE_KEY) { border_parts(s.border_style) } else { hidden_parts() }
}

/// The tab width the style renders with.
pub open spec fn tab_view<T>(s: Style<T>) -> i32 {
    if s.has(TAB_WIDTH_KEY) { s.tab_width } else { TAB_WIDTH_DEFAULT }
}

/// Two styles render alike: the same own text and renderer, the same
/// stored attributes, colors (border and margin colors included) and
/// reported properties, and neither has a transformation (two
/// transformations are never taken to be alike).
pub open spec fn equivalent<T, U>(a: Style<T>, b: Style<U>) -> bool {
    &&& a.value@ == b.value@
    &&& a.r == b.r
    &&& opt_view(a.fg_color) == opt_view(b.fg_color)
    &&& opt_view(a.bg_color) == opt_view(b.bg_color)
    &&& opt_view(a.border_top_fg_color) == opt_view(b.border_top_fg_color)
    &&& opt_view(a.border_right_fg_color) == opt_view(b.border_right_fg_color)
    &&& opt_view(a.border_bottom_fg_color) == opt_view(b.border_bottom_fg_color)
    &&& opt_view(a.border_left_fg_color) == opt_view(b.border_left_fg_color)
    &&& opt_view(a.border_top_bg_color) == opt_view(b.border_top_bg_color)
    &&& opt_view(a.border_right_bg_color) == opt_view(b.border_right_bg_color)
    &&& opt_view(a.border_bottom_bg_color) == opt_view(b.border_bottom_bg_color)
    &&& opt_view(a.border_left_bg_color) == opt_view(b.border_left_bg_color)
    &&& a.has(MARGIN_BACKGROUND_KEY) == b.has(MARGIN_BACKGROUND_KEY)
    &&& a.has(BACKGROUND_KEY) == b.has(BACKGROUND_KEY)
    &&& a.has(FOREGROUND_KEY) == b.has(FOREGROUND_KEY)
    &&& a.has(BORDER_STYLE_KEY) == b.has(BORDER_STYLE_KEY)
    &&& opt_view(a.margin_bg_color) == opt_view(b.margin_bg_color)
    &&& a.attrs == b.attrs
    &&& a.flag(BOLD_KEY, ATTR_BOLD) == b.flag(BOLD_KEY, ATTR_BOLD)
    &&& a.flag(FAINT_KEY, ATTR_FAINT) == b.flag(FAINT_KEY, ATTR_FAINT)
    &&& a.flag(ITALIC_KEY, ATTR_ITALIC) == b.flag(ITALIC_KEY, ATTR_ITALIC)
    &&& a.flag(UNDERLINE_KEY, ATTR_UNDERLINE) == b.flag(UNDERLINE_KEY, ATTR_UNDERLINE)
    &&& a.flag(STRIKETHROUGH_KEY, ATTR_STRIKETHROUGH) == b.flag(STRIKETHROUGH_KEY, ATTR_STRIKETHROUGH)
    &&& a.flag(REVERSE_KEY, ATTR_REVERSE) == b.flag(REVERSE_KEY, ATTR_REVERSE)
    &&& a.flag(BLINK_KEY, ATTR_BLINK) == b.flag(BLINK_KEY, ATTR_BLINK)
    &&& a.flag(INLINE_KEY, ATTR_INLINE) == b.flag(INLINE_KEY, ATTR_INLINE)
    &&& color_prop(a, FOREGROUND_KEY, a.fg_color) == color_prop(b, FOREGROUND_KEY, b.fg_color)
    &&& color_prop(a, BACKGROUND_KEY, a.bg_color) == color_prop(b, BACKGROUND_KEY, b.bg_color)
    &&& a.dim(WIDTH_KEY, a.width) == b.dim(WIDTH_KEY, b.width)
    &&& a.dim(HEIGHT_KEY, a.height) == b.dim(HEIGHT_KEY, b.height)
    &&& a.dim(MAX_WIDTH_KEY, a.max_width) == b.dim(MAX_WIDTH_KEY, b.max_width)
    &&& a.dim(MAX_HEIGHT_KEY, a.max_height) == b.dim(MAX_HEIGHT_KEY, b.max_height)
    &&& a.dim(PADDING_TOP_KEY, a.padding_top) == b.dim(PADDING_TOP_KEY, b.padding_top)
    &&& a.dim(PADDING_RIGHT_KEY, a.padding_right) == b.dim(PADDING_RIGHT_KEY, b.padding_right)
    &&& a.dim(PADDING_BOTTOM_KEY, a.padding_bottom) == b.dim(PADDING_BOTTOM_KEY, b.padding_bottom)
    &&& a.dim(PADDING_LEFT_KEY, a.padding_left) == b.dim(PADDING_LEFT_KEY, b.padding_left)
    &&& a.dim(MARGIN_TOP_KEY, a.margin_top) == b.dim(MARGIN_TOP_KEY, b.margin_top)
    &&& a.dim(MARGIN_RIGHT_KEY, a.margin_right) == b.dim(MARGIN_RIGHT_KEY, b.margin_right)
    &&& a.dim(MARGIN_BOTTOM_KEY, a.margin_bottom) == b.dim(MARGIN_BOTTOM_KEY, b.margin_bottom)
    &&& a.dim(MARGIN_LEFT_KEY, a.margin_left) == b.dim(MARGIN_LEFT_KEY, b.margin_left)
    &&& border_view(a) == border_view(b)
    &&& a.side(BORDER_TOP_KEY, ATTR_BORDER_TOP) == b.side(BORDER_TOP_KEY, ATTR_BORDER_TOP)
    &&& a.side(BORDER_RIGHT_KEY, ATTR_BORDER_RIGHT) == b.side(BORDER_RIGHT_KEY, ATTR_BORDER_RIGHT)
    &&& a.side(BORDER_BOTTOM_KEY, ATTR_BORDER_BOTTOM) == b.side(BORDER_BOTTOM_KEY, ATTR_BORDER_BOTTOM)
    &&& a.side(BORDER_LEFT_KEY, ATTR_BORDER_LEFT) == b.side(BORDER_LEFT_KEY, ATTR_BORDER_LEFT)
    &&& a.pos(ALIGN_HORIZONTAL_KEY, a.align_horizontal) == b.pos(ALIGN_HORIZONTAL_KEY, b.align_horizontal)
    &&& a.pos(ALIGN_VERTICAL_KEY, a.align_vertical) == b.pos(ALIGN_VERTICAL_KEY, b.align_vertical)
    &&& tab_view(a) == tab_view(b)
    &&& a.flag(UNDERLINE_SPACES_KEY, ATTR_UNDERLINE_SPACES) == b.flag(UNDERLINE_SPACES_KEY, ATTR_UNDERLINE_SPACES)
    &&& a.flag(STRIKETHROUGH_SPACES_KEY, ATTR_STRIKETHROUGH_SPACES) == b.flag(
        STRIKETHROUGH_SPACES_KEY,
        ATTR_STRIKETHROUGH_SPACES,
    )
    &&& a.flag(COLOR_WHITESPACE_KEY, ATTR_COLOR_WHITESPACE) == b.flag(COLOR_WHITESPACE_KEY, ATTR_COLOR_WHITESPACE)
    &&& a.transform is None && b.transform is None
}

/// Whether two strings hold the same characters.
pub fn str_eq(a: &str, b: &str) -> (r: bool)
    ensures
        r == (a@ == b@),
{
    let x = to_owned_string(a);
    let y = to_owned_string(b);
    x == y
}

/// Whether two optional colors are the same color string.
fn same_color(a: &Option<Color>, b: &Option<Color>) -> (r: bool)
    ensures
        r == (match (a, b) {
            (Some(x), Some(y)) => x.0@ == y.0@,
            (None, None) => true,
            _ => false,
        }),
{
    match (a, b) {
        (Some(x), Some(y)) => x.0 == y.0,
        (None, None) => true,
        _ => false,
    }
}

/// Whether two optional strings hold the same characters.
fn same_opt_str(a: &Option<String>, b: &Option<String>) -> (r: bool)
    ensures
        r == (opt_view(*a) == opt_view(*b)),
{
    match (a, b) {
        (Some(x), Some(y)) => str_eq(x.as_str(), y.as_str()),
        (None, None) => true,
        _ => false,
    }
}

/// Whether two styles have the same renderer, or both none.
fn same_renderer(a: &Option<Renderer>, b: &Option<Renderer>) -> (r: bool)
    ensures
        r == (*a == *b),
{
    match (a, b) {
        (Some(x), Some(y)) => x.same_as(y),
        (None, None) => true,
        _ => false,
    }
}

/// Whether two borders draw with the same strings.
pub fn same_border(a: &Border, b: &Border) -> (r: bool)
    ensures
        r == (border_parts(*a) == border_parts(*b)),
{
    let r = str_eq(a.top, b.top) && str_eq(a.bottom, b.bottom) && str_eq(a.left, b.left)
        && str_eq(a.right, b.right) && str_eq(a.top_left, b.top_left) && str_eq(a.top_right, b.top_right)
        && str_eq(a.bottom_left, b.bottom_left) && str_eq(a.bottom_right, b.bottom_right)
        && str_eq(a.middle_left, b.middle_left) && str_eq(a.middle_right, b.middle_right)
        && str_eq(a.middle, b.middle) && str_eq(a.middle_top, b.middle_top)
        && str_eq(a.middle_bottom, b.middle_bottom);
    proof {
        if border_parts(*a) == border_parts(*b) {
            assert(border_parts(*a)[0] == border_parts(*b)[0]);
            assert(border_parts(*a)[1] == border_parts(*b)[1]);
            assert(border_parts(*a)[2] == border_parts(*b)[2]);
            assert(border_parts(*a)[3] == border_parts(*b)[3]);
            assert(border_parts(*a)[4] == border_parts(*b)[4]);
            assert(border_parts(*a)[5] == border_parts(*b)[5]);
            assert(border_parts(*a)[6] == border_parts(*b)[6]);
            assert(border_parts(*a)[7] == border_parts(*b)[7]);
            assert(border_parts(*a)[8] == border_parts(*b)[8]);
            assert(border_parts(*a)[9] == border_parts(*b)[9]);
            assert(border_parts(*a)[10] == border_parts(*b)[10]);
            assert(border_parts(*a)[11] == border_parts(*b)[11]);
            assert(border_parts(*a)[12] == border_parts(*b)[12]);
        }
        if r {
            assert(border_parts(*a) =~= border_parts(*b));
        }
    }
    r
}

impl<T: TextTransform> Style<T> {
    /// Whether the two styles render alike (see `equivalent`).
    pub fn is_equivalent<U: TextTransform>(&self, other: &Style<U>) -> (r: bool)
        ensures
            r == equivalent(*self, *other),
    {
        if !str_eq(self.value.as_str(), other.value.as_str()) || !same_renderer(&self.r, &other.r) {
            return false;
        }
        if !same_opt_str(&self.fg_color, &other.fg_color) || !same_opt_str(&self.bg_color, &other.bg_color)
            || !same_opt_str(&self.border_top_fg_color, &other.border_top_fg_color)
            || !same_opt_str(&self.border_right_fg_color, &other.border_right_fg_color)
            || !same_opt_str(&self.border_bottom_fg_color, &other.border_bottom_fg_color)
            || !same_opt_str(&self.border_left_fg_color, &other.border_left_fg_color)
            || !same_opt_str(&self.border_top_bg_color, &other.border_top_bg_color)
            || !same_opt_str(&self.border_right_bg_color, &other.border_right_bg_color)
            || !same_opt_str(&self.border_bottom_bg_color, &other.border_bottom_bg_color)
            || !same_opt_str(&self.border_left_bg_color, &other.border_left_bg_color)
            || !same_opt_str(&self.margin_bg_color, &other.margin_bg_color)
            || self.is_set(MARGIN_BACKGROUND_KEY) != other.is_set(MARGIN_BACKGROUND_KEY)
            || self.is_set(BACKGROUND_KEY) != other.is_set(BACKGROUND_KEY)
            || self.is_set(FOREGROUND_KEY) != other.is_set(FOREGROUND_KEY)
            || self.is_set(BORDER_STYLE_KEY) != other.is_set(BORDER_STYLE_KEY) {
            return false;
        }
        if self.attrs != other.attrs {
            return false;
        }
        if self.get_bold() != other.get_bold() || self.get_faint() != other.get_faint()
            || self.get_italic() != other.get_italic() || self.get_underline() != other.get_underline()
            || self.get_strikethrough() != other.get_strikethrough()
            || self.get_reverse() != other.get_reverse() || self.get_blink() != other.get_blink()
            || self.get_inline() != other.get_inline() {
            return false;
        }
        if !same_color(&self.get_foreground(), &other.get_foreground()) || !same_color(
            &self.get_background(),
            &other.get_background(),
        ) {
            return false;
        }
        if self.get_width() != other.get_width() || self.get_height() != other.get_height()
            || self.get_max_width() != other.get_max_width()
            || self.get_max_height() != other.get_max_height() {
            return false;
        }
        let (p1, p2) = (self.get_padding(), other.get_padding());
        if p1.0 != p2.0 || p1.1 != p2.1 || p1.2 != p2.2 || p1.3 != p2.3 {
            return false;
        }
        let (m1, m2) = (self.get_margin(), other.get_margin());
        if m1.0 != m2.0 || m1.1 != m2.1 || m1.2 != m2.2 || m1.3 != m2.3 {
            return false;
        }
        if !same_border(&self.get_border_style(), &other.get_border_style())
            || self.get_border_top() != other.get_border_top()
            || self.get_border_right() != other.get_border_right()
            || self.get_border_bottom() != other.get_border_bottom()
            || self.get_border_left() != other.get_border_left() {
            return false;
        }
        if self.get_align_horizontal() != other.get_align_horizontal()
            || self.get_align_vertical() != other.get_align_vertical() {
            return false;
        }
        if self.get_tab_width() != other.get_tab_width() {
            return false;
        }
        if self.get_underline_spaces() != other.get_underline_spaces()
            || self.get_strikethrough_spaces() != other.get_strikethrough_spaces()
            || self.get_color_whitespace() != other.get_color_whitespace() {
            return false;
        }
        self.transform.is_none() && other.transform.is_none()
    }
}

} // verus!
