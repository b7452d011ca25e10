//! Symbol records and symbol streams.

pub mod check;
pub mod iter;
pub mod kind;
pub mod sort;
pub mod remap;
