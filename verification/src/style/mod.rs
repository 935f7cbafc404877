//! A style: a set of properties (attributes, colors, sizes, spacing,
//! borders) that renders text into a styled block.

pub mod attributes;
pub mod borders;
pub mod colors;
pub mod data;
pub mod equality;
pub mod frame;
pub mod getters;
pub mod keys;
pub mod laws;
pub mod layout;
pub mod render;
pub mod render_utils;
pub mod rules;
pub mod sgr;
pub mod sizing;
pub mod stages;
pub mod transform;
pub mod unset;
pub mod wrap;

pub use crate::style::data::Style;
