//! Two-level images: every pixel becomes black or white by its luma.

use crate::cv::Color;
use image::Pixel;
use vstd::prelude::*;

verus! {

/// The luma of an 8-bit sRGB colour: red, green and blue weighted with
/// 2126, 7152 and 722 ten-thousandths, rounded down.
pub open spec fn srgb_luma(r: u8, g: u8, b: u8) -> u8 {
    ((2126 * r + 7152 * g + 722 * b) / 10000) as u8
}

/// The black or white sample of a pixel of the given luma.
pub open spec fn two_level(luma: u8, level: u8) -> i32 {
    if luma < level {
        0
    } else {
        255
    }
}

impl Color {
    /// The luma of the colour. Alpha plays no part in it.
    pub open spec fn luma(self) -> u8 {
        match self {
            Color::RGB(r, g, b) => srgb_luma(r, g, b),
            Color::RGBA(r, g, b, _) => srgb_luma(r, g, b),
        }
    }
}

/// The luma of the pixel `image::Rgba([r, g, b, a])`, as
/// `image::Pixel::to_luma` gives it.
///
/// Not proved: that the `image` crate computes the luma of 8-bit channels as
/// [`srgb_luma`] says, from red, green and blue alone, and never fails.
#[verifier::external_body]
fn rgba_luma(r: u8, g: u8, b: u8, a: u8) -> (luma: u8)
    ensures
        luma == srgb_luma(r, g, b),
{
    image::Rgba([r, g, b, a]).to_luma().0[0]
}

/// The luma of a colour; a colour without alpha counts as opaque.
fn luma(color: &Color) -> (luma: u8)
    ensures
        luma == color.luma(),
{
    match *color {
        Color::RGB(r, g, b) => rgba_luma(r, g, b, 255),
        Color::RGBA(r, g, b, a) => rgba_luma(r, g, b, a),
    }
}

/// The two-level image of `pixels`: 0 where the luma of a pixel is below
/// `level`, 255 elsewhere. The samples stand in the order of the pixels.
pub fn threshold(pixels: &Vec<Color>, level: u8) -> (out: Vec<i32>)
    ensures
        out@ == Seq::new(pixels@.len(), |i: int| two_level(pixels@[i].luma(), level)),
{
    let mut out: Vec<i32> = Vec::with_capacity(pixels.len());
    let mut i: usize = 0;
    while i < pixels.len()
        invariant
            i <= pixels.len(),
            out@ == Seq::new(i as nat, |n: int| two_level(pixels@[n].luma(), level)),
        decreases pixels.len() - i,
    {
        let y = luma(&pixels[i]);
        if y < level {
            out.push(0);
        } else {
            out.push(255);
        }
        i += 1;
    }
    out
}

} // verus!
