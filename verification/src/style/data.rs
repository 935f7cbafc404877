//! The style's data and its bit-set bookkeeping.

use vstd::prelude::*;
use crate::border::{border_parts, hidden_border, Border};
use crate::position::Position;
use crate::renderer::Renderer;
use crate::strings::to_owned_string;
use crate::security::MAX_DIMENSION;
use crate::style::keys::{
    bit32, bit64, group_style_bits, put_bit32, with_bit64, without_bit64, ATTR_BORDER_BOTTOM,
    ATTR_BORDER_LEFT, ATTR_BORDER_RIGHT, ATTR_BORDER_TOP, BORDER_BOTTOM_KEY, BORDER_LEFT_KEY,
    BORDER_RIGHT_KEY, BORDER_TOP_KEY, MARGIN_BOTTOM_KEY, MARGIN_LEFT_KEY, MARGIN_RIGHT_KEY,
    MARGIN_TOP_KEY, PADDING_BOTTOM_KEY, PADDING_LEFT_KEY, PADDING_RIGHT_KEY, PADDING_TOP_KEY,
    TAB_WIDTH_DEFAULT,
};

verus! {

broadcast use group_style_bits;

/// A text transformation applied before layout, supplied by the caller.
pub trait TextTransform {
    /// Whether the transformation may be applied to `s`.
    spec fn accepts(&self, s: String) -> bool;

    /// Whether `r` is a result the transformation may give for `s`.
    spec fn transforms(&self, s: String, r: String) -> bool;

    /// The transformed text.
    fn apply(&self, s: String) -> (r: String)
        requires
            self.accepts(s),
        ensures
            self.transforms(s, r),
    ;
}

/// No transformation: the type of a style that has none.
#[derive(Debug, Clone, Copy, Default)]
pub struct NoTransform;

impl TextTransform for NoTransform {
    /// Every text is accepted.
    open spec fn accepts(&self, s: String) -> bool {
        true
    }

    /// The text is returned as it is.
    open spec fn transforms(&self, s: String, r: String) -> bool {
        r == s
    }

    fn apply(&self, s: String) -> (r: String) {
        s
    }
}

/// Calls a caller's function on `s` (`Fn::call`), where the function's own
/// precondition holds for `s`. The result is one the function may return
/// for `s`: its postcondition holds of it. Nothing more is claimed of what
/// the function returns.
#[verifier::external_body]
fn call_text_fn<F: Fn(String) -> String>(f: &F, s: String) -> (r: String)
    requires
        call_requires(*f, (s,)),
    ensures
        call_ensures(*f, (s,), r),
{
    f(s)
}

impl<F: Fn(String) -> String> TextTransform for F {
    /// The texts for which the function's precondition holds.
    open spec fn accepts(&self, s: String) -> bool {
        call_requires(*self, (s,))
    }

    /// The function's result: its postcondition holds of `r`.
    open spec fn transforms(&self, s: String, r: String) -> bool {
        call_ensures(*self, (s,), r)
    }

    fn apply(&self, s: String) -> (r: String) {
        call_text_fn(self, s)
    }
}

/// The properties of a style. A property counts only when its key is set in
/// `props`; boolean properties keep their value in `attrs`.
#[derive(Clone, Debug)]
pub struct Style<T> {
    pub r: Option<Renderer>,
    pub props: u64,
    pub value: String,
    pub attrs: u32,
    pub fg_color: Option<String>,
    pub bg_color: Option<String>,
    pub width: i32,
    pub height: i32,
    pub max_width: i32,
    pub max_height: i32,
    pub align_horizontal: Position,
    pub align_vertical: Position,
    pub padding_top: i32,
    pub padding_right: i32,
    pub padding_bottom: i32,
    pub padding_left: i32,
    pub margin_top: i32,
    pub margin_right: i32,
    pub margin_bottom: i32,
    pub margin_left: i32,
    pub margin_bg_color: Option<String>,
    pub border_style: Border,
    pub border_top_fg_color: Option<String>,
    pub border_right_fg_color: Option<String>,
    pub border_bottom_fg_color: Option<String>,
    pub border_left_fg_color: Option<String>,
    pub border_top_bg_color: Option<String>,
    pub border_right_bg_color: Option<String>,
    pub border_bottom_bg_color: Option<String>,
    pub border_left_bg_color: Option<String>,
    pub tab_width: i32,
    pub transform: Option<T>,
}

/// Two styles agree on everything but the transformation and the set of
/// property keys.
pub open spec fn same_but_transform<T, U>(a: Style<T>, b: Style<U>) -> bool {
    &&& a.r == b.r && a.value == b.value && a.attrs == b.attrs
    &&& a.fg_color == b.fg_color && a.bg_color == b.bg_color
    &&& a.width == b.width && a.height == b.height && a.max_width == b.max_width && a.max_height == b.max_height
    &&& a.align_horizontal == b.align_horizontal && a.align_vertical == b.align_vertical
    &&& a.padding_top == b.padding_top && a.padding_right == b.padding_right
    &&& a.padding_bottom == b.padding_bottom && a.padding_left == b.padding_left
    &&& a.margin_top == b.margin_top && a.margin_right == b.margin_right
    &&& a.margin_bottom == b.margin_bottom && a.margin_left == b.margin_left
    &&& a.margin_bg_color == b.margin_bg_color && a.border_style == b.border_style
    &&& a.border_top_fg_color == b.border_top_fg_color && a.border_right_fg_color == b.border_right_fg_color
    &&& a.border_bottom_fg_color == b.border_bottom_fg_color && a.border_left_fg_color == b.border_left_fg_color
    &&& a.border_top_bg_color == b.border_top_bg_color && a.border_right_bg_color == b.border_right_bg_color
    &&& a.border_bottom_bg_color == b.border_bottom_bg_color && a.border_left_bg_color == b.border_left_bg_color
    &&& a.tab_width == b.tab_width
}

/// The parts of the hidden border: a space each.
pub open spec fn hidden_parts() -> Seq<Seq<char>> {
    seq![
        seq![' '], seq![' '], seq![' '], seq![' '], seq![' '], seq![' '], seq![' '],
        seq![' '], seq![' '], seq![' '], seq![' '], seq![' '], seq![' '],
    ]
}

/// A style with nothing set: no properties, no renderer, no value, the
/// hidden border and the default tab width.
pub open spec fn is_blank_style<T>(s: Style<T>) -> bool {
    &&& s.r is None
    &&& s.props == 0
    &&& s.value@ == Seq::<char>::empty()
    &&& s.attrs == 0
    &&& s.fg_color is None
    &&& s.bg_color is None
    &&& s.width == 0 && s.height == 0 && s.max_width == 0 && s.max_height == 0
    &&& s.align_horizontal.0 == 0 && s.align_vertical.0 == 0
    &&& s.padding_top == 0 && s.padding_right == 0 && s.padding_bottom == 0 && s.padding_left == 0
    &&& s.margin_top == 0 && s.margin_right == 0 && s.margin_bottom == 0 && s.margin_left == 0
    &&& s.margin_bg_color is None
    &&& border_parts(s.border_style) == hidden_parts()
    &&& s.border_top_fg_color is None && s.border_right_fg_color is None
    &&& s.border_bottom_fg_color is None && s.border_left_fg_color is None
    &&& s.border_top_bg_color is None && s.border_right_bg_color is None
    &&& s.border_bottom_bg_color is None && s.border_left_bg_color is None
    &&& s.tab_width == TAB_WIDTH_DEFAULT
    &&& s.transform is None
}

impl<T> Style<T> {
    /// Whether the property with key `k` is set.
    pub open spec fn has(&self, k: u64) -> bool {
        bit64(self.props, k)
    }

    /// The boolean attribute `k` as stored.
    pub open spec fn attr(&self, k: u32) -> bool {
        bit32(self.attrs, k)
    }

    /// A boolean property: set and true.
    pub open spec fn flag(&self, k: u64, a: u32) -> bool {
        self.has(k) && self.attr(a)
    }

    /// A border side: drawn when set and enabled.
    pub open spec fn side(&self, k: u64, a: u32) -> bool {
        self.has(k) && self.attr(a)
    }

    /// A numeric property: the value when set, else 0.
    pub open spec fn dim(&self, k: u64, v: i32) -> i32 {
        if self.has(k) { v } else { 0 }
    }

    /// An alignment: the value when set, else the top/left edge.
    pub open spec fn pos(&self, k: u64, p: Position) -> Position {
        if self.has(k) { p } else { Position(0) }
    }

    /// Cells the left and right borders take.
    pub open spec fn h_border(&self) -> int {
        (if self.side(BORDER_LEFT_KEY, ATTR_BORDER_LEFT) { 1int } else { 0int })
            + (if self.side(BORDER_RIGHT_KEY, ATTR_BORDER_RIGHT) { 1int } else { 0int })
    }

    /// Lines the top and bottom borders take.
    pub open spec fn v_border(&self) -> int {
        (if self.side(BORDER_TOP_KEY, ATTR_BORDER_TOP) { 1int } else { 0int })
            + (if self.side(BORDER_BOTTOM_KEY, ATTR_BORDER_BOTTOM) { 1int } else { 0int })
    }

    /// Cells taken left and right of the content.
    pub open spec fn h_frame(&self) -> int {
        self.dim(PADDING_LEFT_KEY, self.padding_left) + self.dim(PADDING_RIGHT_KEY, self.padding_right)
            + self.h_border() + self.dim(MARGIN_LEFT_KEY, self.margin_left) + self.dim(
            MARGIN_RIGHT_KEY,
            self.margin_right,
        )
    }

    /// Lines taken above and below the content.
    pub open spec fn v_frame(&self) -> int {
        self.dim(PADDING_TOP_KEY, self.padding_top) + self.dim(PADDING_BOTTOM_KEY, self.padding_bottom)
            + self.v_border() + self.dim(MARGIN_TOP_KEY, self.margin_top) + self.dim(
            MARGIN_BOTTOM_KEY,
            self.margin_bottom,
        )
    }

    /// Sizes and spacing are within the accepted range (as the setters
    /// leave them), and the tab width is -1 or within it.
    pub open spec fn wf(&self) -> bool {
        &&& 0 <= self.width <= MAX_DIMENSION && 0 <= self.height <= MAX_DIMENSION
        &&& 0 <= self.max_width <= MAX_DIMENSION && 0 <= self.max_height <= MAX_DIMENSION
        &&& 0 <= self.padding_top <= MAX_DIMENSION && 0 <= self.padding_right <= MAX_DIMENSION
        &&& 0 <= self.padding_bottom <= MAX_DIMENSION && 0 <= self.padding_left <= MAX_DIMENSION
        &&& 0 <= self.margin_top <= MAX_DIMENSION && 0 <= self.margin_right <= MAX_DIMENSION
        &&& 0 <= self.margin_bottom <= MAX_DIMENSION && 0 <= self.margin_left <= MAX_DIMENSION
        &&& -1 <= self.tab_width <= MAX_DIMENSION
    }

    /// Whether the property with key `k` is set.
    pub fn is_set(&self, k: u64) -> (b: bool)
        requires
            k < 64,
        ensures
            b == self.has(k),
    {
        (self.props >> k) & 1 == 1
    }

    /// Marks the property with key `k` as set.
    pub fn set_prop(&mut self, k: u64)
        requires
            k < 64,
        ensures
            *final(self) == (Style::<T> { props: with_bit64(old(self).props, k), ..*old(self) }),
    {
        self.props = self.props | (1u64 << k);
    }

    /// Marks the property with key `k` as unset.
    pub fn unset_prop(&mut self, k: u64)
        requires
            k < 64,
        ensures
            *final(self) == (Style::<T> { props: without_bit64(old(self).props, k), ..*old(self) }),
    {
        self.props = self.props & !(1u64 << k);
    }

    /// The stored boolean attribute `k`.
    pub fn get_attr(&self, k: u32) -> (b: bool)
        requires
            k < 32,
        ensures
            b == self.attr(k),
    {
        (self.attrs >> k) & 1 == 1
    }

    /// Stores the boolean attribute `k`.
    pub fn set_attr(&mut self, k: u32, v: bool)
        requires
            k < 32,
        ensures
            *final(self) == (Style { attrs: put_bit32(old(self).attrs, k, v), ..*old(self) }),
    {
        if v {
            self.attrs = self.attrs | (1u32 << k);
        } else {
            self.attrs = self.attrs & !(1u32 << k);
        }
    }

}

impl Style<NoTransform> {
    /// A style with nothing set.
    pub fn new() -> (s: Self)
        ensures
            is_blank_style(s),
            s.wf(),
    {
        Style {
            r: None,
            props: 0,
            value: String::new(),
            attrs: 0,
            fg_color: None,
            bg_color: None,
            width: 0,
            height: 0,
            max_width: 0,
            max_height: 0,
            align_horizontal: Position::left(),
            align_vertical: Position::top(),
            padding_top: 0,
            padding_right: 0,
            padding_bottom: 0,
            padding_left: 0,
            margin_top: 0,
            margin_right: 0,
            margin_bottom: 0,
            margin_left: 0,
            margin_bg_color: None,
            border_style: hidden_border(),
            border_top_fg_color: None,
            border_right_fg_color: None,
            border_bottom_fg_color: None,
            border_left_fg_color: None,
            border_top_bg_color: None,
            border_right_bg_color: None,
            border_bottom_bg_color: None,
            border_left_bg_color: None,
            tab_width: TAB_WIDTH_DEFAULT,
            transform: None,
        }
    }

}

impl<T: TextTransform> Style<T> {
    /// The style's transformation, if it has one, may be applied to any text.
    pub open spec fn accepts_any_text(&self) -> bool {
        self.transform matches Some(t) ==> forall|s: String| #[trigger] t.accepts(s)
    }

    /// The style with `s` as its own text, rendered in place of any text
    /// given to `render`.
    pub fn set_string(self, s: &str) -> (r: Self)
        ensures
            r.value@ == s@,
            r == (Style { value: r.value, ..self }),
    {
        let mut st = self;
        st.value = to_owned_string(s);
        st
    }

    /// The style's own text.
    pub fn value(&self) -> (v: &str)
        ensures
            v@ == self.value@,
    {
        self.value.as_str()
    }

    /// A copy of the style's own text.
    pub fn string(&self) -> (v: String)
        ensures
            v@ == self.value@,
    {
        self.value.clone()
    }
}

impl Default for Style<NoTransform> {
    fn default() -> (s: Self)
        ensures
            is_blank_style(s),
    {
        Style::new()
    }
}

} // verus!
