//! Packing of 8-bit channels into 32-bit colour words.
//!
//! Two layouts are used. In the 0RGB layout bits 23..16 of a word hold red,
//! bits 15..8 green and bits 7..0 blue; the top byte is zero. The ARGB layout
//! is the same with alpha in bits 31..24.
//!
//! The spec functions give a word as a number in base 256. The lemmas
//! [`lemma_word_bits`] and [`lemma_channel_bits`] give the same in shifts and
//! masks.

use vstd::prelude::*;

verus! {

/// The 0RGB word of three channels.
pub open spec fn rgb_word(r: u8, g: u8, b: u8) -> u32 {
    (r * 0x1_0000 + g * 0x100 + b) as u32
}

/// The ARGB word of four channels.
pub open spec fn argb_word(a: u8, r: u8, g: u8, b: u8) -> u32 {
    (a * 0x100_0000 + r * 0x1_0000 + g * 0x100 + b) as u32
}

/// The alpha channel of a word: bits 31..24.
pub open spec fn word_alpha(word: u32) -> u8 {
    (word / 0x100_0000) as u8
}

/// The red channel of a word: bits 23..16.
pub open spec fn word_red(word: u32) -> u8 {
    (word / 0x1_0000 % 0x100) as u8
}

/// The green channel of a word: bits 15..8.
pub open spec fn word_green(word: u32) -> u8 {
    (word / 0x100 % 0x100) as u8
}

/// The blue channel of a word: bits 7..0.
pub open spec fn word_blue(word: u32) -> u8 {
    (word % 0x100) as u8
}

/// The red, green and blue channels of a word; bits 31..24 are not read.
pub open spec fn word_rgb(word: u32) -> (u8, u8, u8) {
    (word_red(word), word_green(word), word_blue(word))
}

/// The alpha, red, green and blue channels of a word.
pub open spec fn word_argb(word: u32) -> (u8, u8, u8, u8) {
    (word_alpha(word), word_red(word), word_green(word), word_blue(word))
}

/// Packs three channels into a 0RGB word.
pub fn from_rgb(r: u8, g: u8, b: u8) -> (word: u32)
    ensures
        word == rgb_word(r, g, b),
{
    let (r, g, b) = (r as u32, g as u32, b as u32);
    assert((r << 16) | (g << 8) | b == r * 0x1_0000 + g * 0x100 + b) by (bit_vector)
        requires
            r < 256,
            g < 256,
            b < 256,
    ;
    (r << 16) | (g << 8) | b
}

/// Unpacks a 0RGB word; the top byte is discarded.
pub fn to_rgb(rgb: u32) -> (c: (u8, u8, u8))
    ensures
        c == word_rgb(rgb),
{
    assert((rgb >> 16) & 0xff == rgb / 0x1_0000 % 0x100 && (rgb >> 8) & 0xff == rgb / 0x100 % 0x100
        && rgb & 0xff == rgb % 0x100) by (bit_vector);
    (((rgb >> 16) & 0xff) as u8, ((rgb >> 8) & 0xff) as u8, (rgb & 0xff) as u8)
}

/// Packs four channels into an ARGB word.
pub fn from_argb(a: u8, r: u8, g: u8, b: u8) -> (word: u32)
    ensures
        word == argb_word(a, r, g, b),
{
    let (a, r, g, b) = (a as u32, r as u32, g as u32, b as u32);
    assert((a << 24) | (r << 16) | (g << 8) | b == a * 0x100_0000 + r * 0x1_0000 + g * 0x100 + b)
        by (bit_vector)
        requires
            a < 256,
            r < 256,
            g < 256,
            b < 256,
    ;
    (a << 24) | (r << 16) | (g << 8) | b
}

/// Unpacks an ARGB word.
pub fn to_argb(argb: u32) -> (c: (u8, u8, u8, u8))
    ensures
        c == word_argb(argb),
{
    assert((argb >> 24) & 0xff == argb / 0x100_0000 && (argb >> 16) & 0xff == argb / 0x1_0000
        % 0x100 && (argb >> 8) & 0xff == argb / 0x100 % 0x100 && argb & 0xff == argb % 0x100)
        by (bit_vector);
    (
        ((argb >> 24) & 0xff) as u8,
        ((argb >> 16) & 0xff) as u8,
        ((argb >> 8) & 0xff) as u8,
        (argb & 0xff) as u8,
    )
}

/// The low eight bits of a word, read as one luma channel.
pub fn to_gray(argb: u32) -> (y: u8)
    ensures
        y == word_blue(argb),
{
    assert(argb & 0xff == argb % 0x100) by (bit_vector);
    (argb & 0xff) as u8
}

/// Unpacking a packed 0RGB word gives the three channels back.
pub proof fn lemma_rgb_round_trip(r: u8, g: u8, b: u8)
    ensures
        word_rgb(rgb_word(r, g, b)) == (r, g, b),
{
}

/// Unpacking a packed ARGB word gives the four channels back.
pub proof fn lemma_argb_round_trip(a: u8, r: u8, g: u8, b: u8)
    ensures
        word_argb(argb_word(a, r, g, b)) == (a, r, g, b),
{
}

/// Packing the channels of a word as 0RGB gives the word without its top
/// byte.
pub proof fn lemma_rgb_repack(word: u32)
    ensures
        rgb_word(word_red(word), word_green(word), word_blue(word)) == word % 0x100_0000,
{
}

/// Packing the channels of a word as ARGB gives the word back.
pub proof fn lemma_argb_repack(word: u32)
    ensures
        argb_word(word_alpha(word), word_red(word), word_green(word), word_blue(word)) == word,
{
}

/// A packed word holds each channel in its own eight bits.
pub proof fn lemma_word_bits(a: u8, r: u8, g: u8, b: u8)
    ensures
        rgb_word(r, g, b) == (r as u32) << 16 | (g as u32) << 8 | (b as u32),
        argb_word(a, r, g, b) == (a as u32) << 24 | (r as u32) << 16 | (g as u32) << 8 | (b as u32),
{
    assert((r as u32) << 16 | (g as u32) << 8 | (b as u32) == r * 0x1_0000 + g * 0x100 + b)
        by (bit_vector);
    assert((a as u32) << 24 | (r as u32) << 16 | (g as u32) << 8 | (b as u32) == a * 0x100_0000 + r
        * 0x1_0000 + g * 0x100 + b) by (bit_vector);
}

/// Each channel of a word is read from its own eight bits.
pub proof fn lemma_channel_bits(word: u32)
    ensures
        word_alpha(word) == word >> 24,
        word_red(word) == (word >> 16) & 0xff,
        word_green(word) == (word >> 8) & 0xff,
        word_blue(word) == word & 0xff,
{
    assert(word >> 24 == word / 0x100_0000 && (word >> 16) & 0xff == word / 0x1_0000 % 0x100 && (
    word >> 8) & 0xff == word / 0x100 % 0x100 && word & 0xff == word % 0x100) by (bit_vector);
}

} // verus!
