//! Compound nodes: widgets that describe themselves through a built
//! child subtree instead of drawing directly.

pub mod button;
pub mod hoverable;
