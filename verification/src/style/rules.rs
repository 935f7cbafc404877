//! Combining styles: taking unset properties from another style, and
//! copying.

use vstd::prelude::*;
use crate::style::keys::{ALIGN_HORIZONTAL_KEY, ALIGN_VERTICAL_KEY, ATTR_BLINK, ATTR_BOLD, ATTR_BORDER_BOTTOM, ATTR_BORDER_LEFT, ATTR_BORDER_RIGHT, ATTR_BORDER_TOP, ATTR_COLOR_WHITESPACE, ATTR_FAINT, ATTR_INLINE, ATTR_ITALIC, ATTR_REVERSE, ATTR_STRIKETHROUGH, ATTR_STRIKETHROUGH_SPACES, ATTR_UNDERLINE, ATTR_UNDERLINE_SPACES, BACKGROUND_KEY, BLINK_KEY, BOLD_KEY, BORDER_BOTTOM_BACKGROUND_KEY, BORDER_BOTTOM_FOREGROUND_KEY, BORDER_BOTTOM_KEY, BORDER_LEFT_BACKGROUND_KEY, BORDER_LEFT_FOREGROUND_KEY, BORDER_LEFT_KEY, BORDER_RIGHT_BACKGROUND_KEY, BORDER_RIGHT_FOREGROUND_KEY, BORDER_RIGHT_KEY, BORDER_STYLE_KEY, BORDER_TOP_BACKGROUND_KEY, BORDER_TOP_FOREGROUND_KEY, BORDER_TOP_KEY, COLOR_WHITESPACE_KEY, FAINT_KEY, FOREGROUND_KEY, HEIGHT_KEY, INLINE_KEY, ITALIC_KEY, MARGIN_BACKGROUND_KEY, MAX_HEIGHT_KEY, MAX_WIDTH_KEY, REVERSE_KEY, STRIKETHROUGH_KEY, STRIKETHROUGH_SPACES_KEY, TAB_WIDTH_KEY, TRANSFORM_KEY, UNDERLINE_KEY, UNDERLINE_SPACES_KEY, WIDTH_KEY, put_bit32, with_bit64};
use crate::style::data::{same_but_transform, Style, TextTransform};

verus! {

/// A copy of an optional string.
pub fn copy_opt_string(o: &Option<String>) -> (r: Option<String>)
    ensures
        r == *o,
{
    match o {
        Some(s) => Some(s.clone()),
        None => None,
    }
}

/// The keys `inherit` looks at, in order (the transformation comes last
/// and is handled on its own).
pub open spec fn inherit_keys() -> Seq<u64> {
    seq![BOLD_KEY, ITALIC_KEY, UNDERLINE_KEY, STRIKETHROUGH_KEY, REVERSE_KEY, BLINK_KEY, FAINT_KEY, UNDERLINE_SPACES_KEY, STRIKETHROUGH_SPACES_KEY, COLOR_WHITESPACE_KEY, FOREGROUND_KEY, BACKGROUND_KEY, WIDTH_KEY, HEIGHT_KEY, ALIGN_HORIZONTAL_KEY, ALIGN_VERTICAL_KEY, BORDER_STYLE_KEY, BORDER_TOP_KEY, BORDER_RIGHT_KEY, BORDER_BOTTOM_KEY, BORDER_LEFT_KEY, BORDER_TOP_FOREGROUND_KEY, BORDER_RIGHT_FOREGROUND_KEY, BORDER_BOTTOM_FOREGROUND_KEY, BORDER_LEFT_FOREGROUND_KEY, BORDER_TOP_BACKGROUND_KEY, BORDER_RIGHT_BACKGROUND_KEY, BORDER_BOTTOM_BACKGROUND_KEY, BORDER_LEFT_BACKGROUND_KEY, INLINE_KEY, MAX_WIDTH_KEY, MAX_HEIGHT_KEY, TAB_WIDTH_KEY]
}

/// `s` with the property `k` (one of `inherit_keys`) copied from `o`.
pub open spec fn take_key<T>(s: Style<T>, o: Style<T>, k: u64) -> Style<T> {
    if k == BOLD_KEY {
        Style { attrs: put_bit32(s.attrs, ATTR_BOLD, o.attr(ATTR_BOLD)), props: with_bit64(s.props, k), ..s }
    } else if k == ITALIC_KEY {
        Style { attrs: put_bit32(s.attrs, ATTR_ITALIC, o.attr(ATTR_ITALIC)), props: with_bit64(s.props, k), ..s }
    } else if k == UNDERLINE_KEY {
        Style { attrs: put_bit32(s.attrs, ATTR_UNDERLINE, o.attr(ATTR_UNDERLINE)), props: with_bit64(s.props, k), ..s }
    } else if k == STRIKETHROUGH_KEY {
        Style { attrs: put_bit32(s.attrs, ATTR_STRIKETHROUGH, o.attr(ATTR_STRIKETHROUGH)), props: with_bit64(s.props, k), ..s }
    } else if k == REVERSE_KEY {
        Style { attrs: put_bit32(s.attrs, ATTR_REVERSE, o.attr(ATTR_REVERSE)), props: with_bit64(s.props, k), ..s }
    } else if k == BLINK_KEY {
        Style { attrs: put_bit32(s.attrs, ATTR_BLINK, o.attr(ATTR_BLINK)), props: with_bit64(s.props, k), ..s }
    } else if k == FAINT_KEY {
        Style { attrs: put_bit32(s.attrs, ATTR_FAINT, o.attr(ATTR_FAINT)), props: with_bit64(s.props, k), ..s }
    } else if k == UNDERLINE_SPACES_KEY {
        Style { attrs: put_bit32(s.attrs, ATTR_UNDERLINE_SPACES, o.attr(ATTR_UNDERLINE_SPACES)), props: with_bit64(s.props, k), ..s }
    } else if k == STRIKETHROUGH_SPACES_KEY {
        Style { attrs: put_bit32(s.attrs, ATTR_STRIKETHROUGH_SPACES, o.attr(ATTR_STRIKETHROUGH_SPACES)), props: with_bit64(s.props, k), ..s }
    } else if k == COLOR_WHITESPACE_KEY {
        Style { attrs: put_bit32(s.attrs, ATTR_COLOR_WHITESPACE, o.attr(ATTR_COLOR_WHITESPACE)), props: with_bit64(s.props, k), ..s }
    } else if k == FOREGROUND_KEY {
        Style { fg_color: o.fg_color, props: with_bit64(s.props, k), ..s }
    } else if k == BACKGROUND_KEY {
        Style { bg_color: o.bg_color, props: with_bit64(s.props, k), ..s }
    } else if k == WIDTH_KEY {
        Style { width: o.width, props: with_bit64(s.props, k), ..s }
    } else if k == HEIGHT_KEY {
        Style { height: o.height, props: with_bit64(s.props, k), ..s }
    } else if k == ALIGN_HORIZONTAL_KEY {
        Style { align_horizontal: o.align_horizontal, props: with_bit64(s.props, k), ..s }
    } else if k == ALIGN_VERTICAL_KEY {
        Style { align_vertical: o.align_vertical, props: with_bit64(s.props, k), ..s }
    } else if k == BORDER_STYLE_KEY {
        Style { border_style: o.border_style, props: with_bit64(s.props, k), ..s }
    } else if k == BORDER_TOP_KEY {
        Style { attrs: put_bit32(s.attrs, ATTR_BORDER_TOP, o.attr(ATTR_BORDER_TOP)), props: with_bit64(s.props, k), ..s }
    } else if k == BORDER_RIGHT_KEY {
        Style { attrs: put_bit32(s.attrs, ATTR_BORDER_RIGHT, o.attr(ATTR_BORDER_RIGHT)), props: with_bit64(s.props, k), ..s }
    } else if k == BORDER_BOTTOM_KEY {
        Style { attrs: put_bit32(s.attrs, ATTR_BORDER_BOTTOM, o.attr(ATTR_BORDER_BOTTOM)), props: with_bit64(s.props, k), ..s }
    } else if k == BORDER_LEFT_KEY {
        Style { attrs: put_bit32(s.attrs, ATTR_BORDER_LEFT, o.attr(ATTR_BORDER_LEFT)), props: with_bit64(s.props, k), ..s }
    } else if k == BORDER_TOP_FOREGROUND_KEY {
        Style { border_top_fg_color: o.border_top_fg_color, props: with_bit64(s.props, k), ..s }
    } else if k == BORDER_RIGHT_FOREGROUND_KEY {
        Style { border_right_fg_color: o.border_right_fg_color, props: with_bit64(s.props, k), ..s }
    } else if k == BORDER_BOTTOM_FOREGROUND_KEY {
        Style { border_bottom_fg_color: o.border_bottom_fg_color, props: with_bit64(s.props, k), ..s }
    } else if k == BORDER_LEFT_FOREGROUND_KEY {
        Style { border_left_fg_color: o.border_left_fg_color, props: with_bit64(s.props, k), ..s }
    } else if k == BORDER_TOP_BACKGROUND_KEY {
        Style { border_top_bg_color: o.border_top_bg_color, props: with_bit64(s.props, k), ..s }
    } else if k == BORDER_RIGHT_BACKGROUND_KEY {
        Style { border_right_bg_color: o.border_right_bg_color, props: with_bit64(s.props, k), ..s }
    } else if k == BORDER_BOTTOM_BACKGROUND_KEY {
        Style { border_bottom_bg_color: o.border_bottom_bg_color, props: with_bit64(s.props, k), ..s }
    } else if k == BORDER_LEFT_BACKGROUND_KEY {
        Style { border_left_bg_color: o.border_left_bg_color, props: with_bit64(s.props, k), ..s }
    } else if k == INLINE_KEY {
        Style { attrs: put_bit32(s.attrs, ATTR_INLINE, o.attr(ATTR_INLINE)), props: with_bit64(s.props, k), ..s }
    } else if k == MAX_WIDTH_KEY {
        Style { max_width: o.max_width, props: with_bit64(s.props, k), ..s }
    } else if k == MAX_HEIGHT_KEY {
        Style { max_height: o.max_height, props: with_bit64(s.props, k), ..s }
    } else if k == TAB_WIDTH_KEY {
        Style { tab_width: o.tab_width, props: with_bit64(s.props, k), ..s }
    } else {
        s
    }
}

/// One step of `inherit` for key `k`: `o`'s background becomes the margin
/// background when `k` is the background key, `o` sets it and neither
/// style sets a margin background; then the property is copied when `o`
/// sets it and `s` does not.
pub open spec fn inherit_step<T>(s: Style<T>, o: Style<T>, k: u64) -> Style<T> {
    if !o.has(k) {
        s
    } else {
        let s1 = if k == BACKGROUND_KEY && !s.has(MARGIN_BACKGROUND_KEY) && !o.has(MARGIN_BACKGROUND_KEY)
            && o.bg_color is Some {
            Style { margin_bg_color: o.bg_color, props: with_bit64(s.props, MARGIN_BACKGROUND_KEY), ..s }
        } else {
            s
        };
        if s1.has(k) { s1 } else { take_key(s1, o, k) }
    }
}

/// `s` after the steps for the first `n` keys.
pub open spec fn inherit_upto<T>(s: Style<T>, o: Style<T>, n: nat) -> Style<T>
    decreases n,
{
    if n == 0 {
        s
    } else {
        inherit_step(inherit_upto(s, o, (n - 1) as nat), o, inherit_keys()[n - 1])
    }
}

/// `s` inheriting from `o`: every key in turn, then the transformation when
/// `o` sets one and `s` does not.
pub open spec fn inherited<T>(s: Style<T>, o: Style<T>) -> Style<T> {
    let t = inherit_upto(s, o, inherit_keys().len());
    if o.has(TRANSFORM_KEY) && !t.has(TRANSFORM_KEY) {
        Style { transform: o.transform, props: with_bit64(t.props, TRANSFORM_KEY), ..t }
    } else {
        t
    }
}

/// Copies the property `k` from `o`.
fn take_key_exec<T: TextTransform>(s: &mut Style<T>, o: &Style<T>, k: u64)
    requires
        k < 64,
    ensures
        *final(s) == take_key(*old(s), *o, k),
{
    if k == BOLD_KEY {
        s.set_attr(ATTR_BOLD, o.get_attr(ATTR_BOLD));
        s.set_prop(k);
    } else if k == ITALIC_KEY {
        s.set_attr(ATTR_ITALIC, o.get_attr(ATTR_ITALIC));
        s.set_prop(k);
    } else if k == UNDERLINE_KEY {
        s.set_attr(ATTR_UNDERLINE, o.get_attr(ATTR_UNDERLINE));
        s.set_prop(k);
    } else if k == STRIKETHROUGH_KEY {
        s.set_attr(ATTR_STRIKETHROUGH, o.get_attr(ATTR_STRIKETHROUGH));
        s.set_prop(k);
    } else if k == REVERSE_KEY {
        s.set_attr(ATTR_REVERSE, o.get_attr(ATTR_REVERSE));
        s.set_prop(k);
    } else if k == BLINK_KEY {
        s.set_attr(ATTR_BLINK, o.get_attr(ATTR_BLINK));
        s.set_prop(k);
    } else if k == FAINT_KEY {
        s.set_attr(ATTR_FAINT, o.get_attr(ATTR_FAINT));
        s.set_prop(k);
    } else if k == UNDERLINE_SPACES_KEY {
        s.set_attr(ATTR_UNDERLINE_SPACES, o.get_attr(ATTR_UNDERLINE_SPACES));
        s.set_prop(k);
    } else if k == STRIKETHROUGH_SPACES_KEY {
        s.set_attr(ATTR_STRIKETHROUGH_SPACES, o.get_attr(ATTR_STRIKETHROUGH_SPACES));
        s.set_prop(k);
    } else if k == COLOR_WHITESPACE_KEY {
        s.set_attr(ATTR_COLOR_WHITESPACE, o.get_attr(ATTR_COLOR_WHITESPACE));
        s.set_prop(k);
    } else if k == FOREGROUND_KEY {
        s.fg_color = copy_opt_string(&o.fg_color);
        s.set_prop(k);
    } else if k == BACKGROUND_KEY {
        s.bg_color = copy_opt_string(&o.bg_color);
        s.set_prop(k);
    } else if k == WIDTH_KEY {
        s.width = o.width;
        s.set_prop(k);
    } else if k == HEIGHT_KEY {
        s.height = o.height;
        s.set_prop(k);
    } else if k == ALIGN_HORIZONTAL_KEY {
        s.align_horizontal = o.align_horizontal;
        s.set_prop(k);
    } else if k == ALIGN_VERTICAL_KEY {
        s.align_vertical = o.align_vertical;
        s.set_prop(k);
    } else if k == BORDER_STYLE_KEY {
        s.border_style = o.border_style;
        s.set_prop(k);
    } else if k == BORDER_TOP_KEY {
        s.set_attr(ATTR_BORDER_TOP, o.get_attr(ATTR_BORDER_TOP));
        s.set_prop(k);
    } else if k == BORDER_RIGHT_KEY {
        s.set_attr(ATTR_BORDER_RIGHT, o.get_attr(ATTR_BORDER_RIGHT));
        s.set_prop(k);
    } else if k == BORDER_BOTTOM_KEY {
        s.set_attr(ATTR_BORDER_BOTTOM, o.get_attr(ATTR_BORDER_BOTTOM));
        s.set_prop(k);
    } else if k == BORDER_LEFT_KEY {
        s.set_attr(ATTR_BORDER_LEFT, o.get_attr(ATTR_BORDER_LEFT));
        s.set_prop(k);
    } else if k == BORDER_TOP_FOREGROUND_KEY {
        s.border_top_fg_color = copy_opt_string(&o.border_top_fg_color);
        s.set_prop(k);
    } else if k == BORDER_RIGHT_FOREGROUND_KEY {
        s.border_right_fg_color = copy_opt_string(&o.border_right_fg_color);
        s.set_prop(k);
    } else if k == BORDER_BOTTOM_FOREGROUND_KEY {
        s.border_bottom_fg_color = copy_opt_string(&o.border_bottom_fg_color);
        s.set_prop(k);
    } else if k == BORDER_LEFT_FOREGROUND_KEY {
        s.border_left_fg_color = copy_opt_string(&o.border_left_fg_color);
        s.set_prop(k);
    } else if k == BORDER_TOP_BACKGROUND_KEY {
        s.border_top_bg_color = copy_opt_string(&o.border_top_bg_color);
        s.set_prop(k);
    } else if k == BORDER_RIGHT_BACKGROUND_KEY {
        s.border_right_bg_color = copy_opt_string(&o.border_right_bg_color);
        s.set_prop(k);
    } else if k == BORDER_BOTTOM_BACKGROUND_KEY {
        s.border_bottom_bg_color = copy_opt_string(&o.border_bottom_bg_color);
        s.set_prop(k);
    } else if k == BORDER_LEFT_BACKGROUND_KEY {
        s.border_left_bg_color = copy_opt_string(&o.border_left_bg_color);
        s.set_prop(k);
    } else if k == INLINE_KEY {
        s.set_attr(ATTR_INLINE, o.get_attr(ATTR_INLINE));
        s.set_prop(k);
    } else if k == MAX_WIDTH_KEY {
        s.max_width = o.max_width;
        s.set_prop(k);
    } else if k == MAX_HEIGHT_KEY {
        s.max_height = o.max_height;
        s.set_prop(k);
    } else if k == TAB_WIDTH_KEY {
        s.tab_width = o.tab_width;
        s.set_prop(k);
    }
}

/// One step of `inherit` for key `k`.
fn inherit_step_exec<T: TextTransform>(s: &mut Style<T>, o: &Style<T>, k: u64)
    requires
        k < 64,
    ensures
        *final(s) == inherit_step(*old(s), *o, k),
{
    if !o.is_set(k) {
        return;
    }
    if k == BACKGROUND_KEY && !s.is_set(MARGIN_BACKGROUND_KEY) && !o.is_set(MARGIN_BACKGROUND_KEY) && o.bg_color.is_some() {
        s.margin_bg_color = copy_opt_string(&o.bg_color);
        s.set_prop(MARGIN_BACKGROUND_KEY);
    }
    if !s.is_set(k) {
        take_key_exec(s, o, k);
    }
}

impl<T: TextTransform> Style<T> {
    /// Takes from `other` every property that `other` sets and this style
    /// does not (padding and margins are never taken), and takes `other`'s
    /// background as the margin background when neither style sets one.
    pub fn inherit(self, other: Style<T>) -> (r: Self)
        ensures
            r == inherited(self, other),
    {
        let keys: [u64; 33] = [BOLD_KEY, ITALIC_KEY, UNDERLINE_KEY, STRIKETHROUGH_KEY, REVERSE_KEY, BLINK_KEY, FAINT_KEY, UNDERLINE_SPACES_KEY, STRIKETHROUGH_SPACES_KEY, COLOR_WHITESPACE_KEY, FOREGROUND_KEY, BACKGROUND_KEY, WIDTH_KEY, HEIGHT_KEY, ALIGN_HORIZONTAL_KEY, ALIGN_VERTICAL_KEY, BORDER_STYLE_KEY, BORDER_TOP_KEY, BORDER_RIGHT_KEY, BORDER_BOTTOM_KEY, BORDER_LEFT_KEY, BORDER_TOP_FOREGROUND_KEY, BORDER_RIGHT_FOREGROUND_KEY, BORDER_BOTTOM_FOREGROUND_KEY, BORDER_LEFT_FOREGROUND_KEY, BORDER_TOP_BACKGROUND_KEY, BORDER_RIGHT_BACKGROUND_KEY, BORDER_BOTTOM_BACKGROUND_KEY, BORDER_LEFT_BACKGROUND_KEY, INLINE_KEY, MAX_WIDTH_KEY, MAX_HEIGHT_KEY, TAB_WIDTH_KEY];
        assert(keys@ == inherit_keys());
        let mut s = self;
        let mut i: usize = 0;
        while i < 33
            invariant
                i <= 33,
                keys@ == inherit_keys(),
                s == inherit_upto(self, other, i as nat),
            decreases 33 - i,
        {
            inherit_step_exec(&mut s, &other, keys[i]);
            i = i + 1;
        }
        if other.is_set(TRANSFORM_KEY) && !s.is_set(TRANSFORM_KEY) {
            s.transform = other.transform;
            s.set_prop(TRANSFORM_KEY);
        }
        s
    }

    /// A copy of the style; the transformation, if any, is cloned.
    pub fn copy(&self) -> (r: Self)
        where T: Clone,
        ensures
            same_but_transform(r, *self),
            r.props == self.props,
            match self.transform {
                Some(t) => r.transform matches Some(u) && cloned(t, u),
                None => r.transform is None,
            },
    {
        Style {
            r: self.r,
            props: self.props,
            value: self.value.clone(),
            attrs: self.attrs,
            fg_color: copy_opt_string(&self.fg_color),
            bg_color: copy_opt_string(&self.bg_color),
            width: self.width,
            height: self.height,
            max_width: self.max_width,
            max_height: self.max_height,
            align_horizontal: self.align_horizontal,
            align_vertical: self.align_vertical,
            padding_top: self.padding_top,
            padding_right: self.padding_right,
            padding_bottom: self.padding_bottom,
            padding_left: self.padding_left,
            margin_top: self.margin_top,
            margin_right: self.margin_right,
            margin_bottom: self.margin_bottom,
            margin_left: self.margin_left,
            margin_bg_color: copy_opt_string(&self.margin_bg_color),
            border_style: self.border_style,
            border_top_fg_color: copy_opt_string(&self.border_top_fg_color),
            border_right_fg_color: copy_opt_string(&self.border_right_fg_color),
            border_bottom_fg_color: copy_opt_string(&self.border_bottom_fg_color),
            border_left_fg_color: copy_opt_string(&self.border_left_fg_color),
            border_top_bg_color: copy_opt_string(&self.border_top_bg_color),
            border_right_bg_color: copy_opt_string(&self.border_right_bg_color),
            border_bottom_bg_color: copy_opt_string(&self.border_bottom_bg_color),
            border_left_bg_color: copy_opt_string(&self.border_left_bg_color),
            tab_width: self.tab_width,
            transform: match &self.transform {
                Some(t) => Some(t.clone()),
                None => None,
            },
        }
    }
}

} // verus!
