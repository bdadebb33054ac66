//! A small raster toolkit.
//!
//! [`one`] packs 8-bit channels into 32-bit colour words. [`cv`] holds the
//! pixel layouts, the storage elements of a pixel buffer and the pixel
//! matrix built on them, and makes two-level images. [`kind`] names the
//! layouts of byte samples.

pub mod cv;
pub mod kind;
pub mod one;
