//! Terminal styling: colors, borders, alignment, joining and measuring of
//! styled text blocks, with their behaviour stated and proved.

pub mod align;
pub mod blending;
pub mod border;
pub mod color;
pub mod join;
pub mod position;
pub mod renderer;
pub mod security;
pub mod size;
pub mod strings;
pub mod style;
pub mod text;
pub mod utils;
pub mod whitespace;

use vstd::prelude::*;

verus! {

/// Value for `Style::tab_width` that leaves tab characters untouched.
pub const NO_TAB_CONVERSION: i32 = -1;

} // verus!
