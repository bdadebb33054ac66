//! Leaf operations that depend on nothing else in the crate.

pub mod vary;

pub use self::vary::{from_argb, from_rgb, to_argb, to_gray, to_rgb};
