//! Small utilities: alignment, iteration helpers, vector editing.

pub mod align;
pub mod iter;
pub mod vec;
