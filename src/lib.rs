//! An immutable, singly linked cons list of `u32` values, a small set of
//! plain value types, and two text renderings: a structural dump and a
//! human-facing display written chunk by chunk to a sink that may refuse.
pub mod list;
pub mod digits;
pub mod render;
pub mod debug;
pub mod display;
pub mod lines;
pub mod values;
