//! The four-channel color value and its conversions to and from the
//! 16-bit and 32-bit direct-color words.

use vstd::prelude::*;

verus! {

/// RGBA color whose channels are 8-bit integers.
///
/// Only meant for the pixel interfaces of this crate, not as a general
/// color type.
#[derive(Copy, Clone, Debug, PartialEq, Eq, Structural)]
pub struct Color {
    pub r: u8,
    pub g: u8,
    pub b: u8,
    pub a: u8,
}

/// Widens a 5-bit channel to 8 bits by repeating its three high bits
/// below the five bits themselves.
pub open spec fn widen5(v: int) -> int {
    v * 8 + v / 4
}

/// Widening by shifts: the channel moved up by three bits, with its
/// three high bits below.
pub proof fn lemma_widen5(v: u8)
    by (bit_vector)
    requires
        v < 32,
    ensures
        (v << 3) | (v >> 2) == v * 8 + v / 4,
{
}

/// Perceptual brightness of an RGB triple: the weighted sum
/// `0.2126 r + 0.7152 g + 0.0722 b`, rounded to the nearest integer
/// with halves going up.
pub open spec fn luma(r: u8, g: u8, b: u8) -> int {
    (2126 * r + 7152 * g + 722 * b + 5000) / 10000
}

/// A gray triple has its own level as brightness, since the three
/// weights add up to one.
pub proof fn lemma_luma_of_gray(v: u8)
    ensures
        luma(v, v, v) == v,
{
}

/// A widened channel has the five bits that it came from on top.
pub proof fn lemma_widen5_back(v: int)
    requires
        0 <= v < 32,
    ensures
        0 <= widen5(v) < 256,
        widen5(v) / 8 == v,
{
}

/// A 16-bit word is made of its four fields.
pub proof fn lemma_u16_fields(pixel: u16)
    by (bit_vector)
    ensures
        pixel == (pixel / 0x800) * 0x800 + (pixel / 0x40 % 0x20) * 0x40 + (pixel / 0x2 % 0x20) * 0x2
            + pixel % 2,
        pixel / 0x800 < 32,
        pixel / 0x40 % 0x20 < 32,
        pixel / 0x2 % 0x20 < 32,
        pixel % 2 < 2,
{
}

/// A 16-bit word that is unpacked and packed again is as it was: the
/// five bits of each channel survive the widening, and the alpha bit
/// survives as 0 or 255.
pub proof fn lemma_u16_round_trip(pixel: u16)
    ensures
        Color::spec_from_u16(pixel).spec_to_u16() == pixel,
{
    let c = Color::spec_from_u16(pixel);
    let r5 = (pixel / 0x800) as int;
    let g5 = (pixel / 0x40 % 0x20) as int;
    let b5 = (pixel / 0x2 % 0x20) as int;
    let a1 = (pixel % 2) as int;
    lemma_u16_fields(pixel);
    lemma_widen5_back(r5);
    lemma_widen5_back(g5);
    lemma_widen5_back(b5);
    assert(c.r == widen5(r5) && (c.r / 8) as int == r5);
    assert(c.g == widen5(g5) && (c.g / 8) as int == g5);
    assert(c.b == widen5(b5) && (c.b / 8) as int == b5);
    assert(c.a == 255 * a1 && (c.a / 255) as int == a1);
    assert(c.spec_to_u16() == (r5 * 0x800 + g5 * 0x40 + b5 * 0x2 + a1) as u16);
}

/// The color of a 32-bit word has the four bytes of the word as its
/// channels.
pub proof fn lemma_u32_channels(b0: u8, b1: u8, b2: u8, b3: u8)
    ensures
        Color::spec_from_u32((b0 * 0x100_0000 + b1 * 0x1_0000 + b2 * 0x100 + b3) as u32) == (Color {
            r: b0,
            g: b1,
            b: b2,
            a: b3,
        }),
{
    let word = (b0 * 0x100_0000 + b1 * 0x1_0000 + b2 * 0x100 + b3) as u32;
    assert(word == b0 * 0x100_0000 + b1 * 0x1_0000 + b2 * 0x100 + b3);
    assert(word % 0x100 == b3 && word / 0x100 == b0 * 0x1_0000 + b1 * 0x100 + b2);
    assert(word / 0x100 % 0x100 == b2);
    assert(word / 0x1_0000 == b0 * 0x100 + b1);
    assert(word / 0x1_0000 % 0x100 == b1);
    assert(word / 0x100_0000 == b0);
}

impl Color {
    /// Black without any opacity.
    #[inline]
    #[allow(non_snake_case)]
    pub fn TRANSPARENT() -> (c: Color)
        ensures
            c == (Color { r: 0, g: 0, b: 0, a: 0 }),
    {
        Color { r: 0, g: 0, b: 0, a: 0 }
    }

    /// Opaque black.
    #[inline]
    #[allow(non_snake_case)]
    pub fn BLACK() -> (c: Color)
        ensures
            c == (Color { r: 0, g: 0, b: 0, a: 255 }),
    {
        Color { r: 0, g: 0, b: 0, a: 255 }
    }

    /// Opaque white.
    #[inline]
    #[allow(non_snake_case)]
    pub fn WHITE() -> (c: Color)
        ensures
            c == (Color { r: 255, g: 255, b: 255, a: 255 }),
    {
        Color { r: 255, g: 255, b: 255, a: 255 }
    }

    /// The color that a 32-bit word holds: red in the highest byte, then
    /// green, blue, and alpha in the lowest.
    pub open spec fn spec_from_u32(pixel: u32) -> Color {
        Color {
            r: (pixel / 0x100_0000) as u8,
            g: (pixel / 0x1_0000 % 0x100) as u8,
            b: (pixel / 0x100 % 0x100) as u8,
            a: (pixel % 0x100) as u8,
        }
    }

    /// The color that a 16-bit word holds: five bits each of red, green
    /// and blue from the top down, widened to eight, and one alpha bit
    /// that stands for fully opaque or fully transparent.
    pub open spec fn spec_from_u16(pixel: u16) -> Color {
        Color {
            r: widen5((pixel / 0x800) as int) as u8,
            g: widen5((pixel / 0x40 % 0x20) as int) as u8,
            b: widen5((pixel / 0x2 % 0x20) as int) as u8,
            a: (255 * (pixel % 2)) as u8,
        }
    }

    /// The 16-bit word for this color: the five high bits of each of red,
    /// green and blue, and an alpha bit that is set only for alpha 255.
    pub open spec fn spec_to_u16(self) -> u16 {
        ((self.r / 8) * 0x800 + (self.g / 8) * 0x40 + (self.b / 8) * 0x2 + self.a / 255) as u16
    }

    /// Brightness of the color channels of this color.
    pub open spec fn spec_intensity(self) -> u8 {
        luma(self.r, self.g, self.b) as u8
    }

    /// Creates a color from its four channels.
    #[inline]
    #[allow(non_snake_case)]
    pub fn RGBA(r: u8, g: u8, b: u8, a: u8) -> (c: Color)
        ensures
            c == (Color { r, g, b, a }),
    {
        Color { r, g, b, a }
    }

    /// Creates an opaque color from its three color channels.
    #[inline]
    #[allow(non_snake_case)]
    pub fn RGB(r: u8, g: u8, b: u8) -> (c: Color)
        ensures
            c == (Color { r, g, b, a: 255 }),
    {
        Color { r, g, b, a: 0xFF }
    }

    /// Unpacks a 32-bit RGBA pixel.
    #[inline]
    pub fn from_u32(pixel: u32) -> (c: Color)
        ensures
            c == Color::spec_from_u32(pixel),
    {
        assert((pixel >> 24) & 0xFF == pixel / 0x100_0000 && (pixel >> 16) & 0xFF == pixel
            / 0x1_0000 % 0x100 && (pixel >> 8) & 0xFF == pixel / 0x100 % 0x100 && pixel & 0xFF
            == pixel % 0x100) by (bit_vector);
        let r: u8 = ((pixel >> 24) & 0xFF) as u8;
        let g: u8 = ((pixel >> 16) & 0xFF) as u8;
        let b: u8 = ((pixel >> 8) & 0xFF) as u8;
        let a: u8 = (pixel & 0xFF) as u8;

        Color { r, g, b, a }
    }

    /// Unpacks a 16-bit RGBA pixel into 8-bit channels.
    #[inline]
    pub fn from_u16(pixel: u16) -> (c: Color)
        ensures
            c == Color::spec_from_u16(pixel),
    {
        assert((pixel >> 11) & 0x1F == pixel / 0x800 && (pixel >> 6) & 0x1F == pixel / 0x40 % 0x20
            && (pixel >> 1) & 0x1F == pixel / 0x2 % 0x20 && pixel & 0x01 == pixel % 2)
            by (bit_vector);
        let r: u8 = ((pixel >> 11) & 0x1F) as u8;
        let g: u8 = ((pixel >> 6) & 0x1F) as u8;
        let b: u8 = ((pixel >> 1) & 0x1F) as u8;
        let a: u8 = (pixel & 0x01) as u8;

        proof {
            lemma_widen5(r);
            lemma_widen5(g);
            lemma_widen5(b);
        }
        let r: u8 = (r << 3) | (r >> 2);
        let g: u8 = (g << 3) | (g >> 2);
        let b: u8 = (b << 3) | (b >> 2);
        let a: u8 = 255 * a;

        Color { r, g, b, a }
    }

    /// Packs this color into a 16-bit RGBA pixel.
    #[inline]
    pub fn to_u16(&self) -> (pixel: u16)
        ensures
            pixel == self.spec_to_u16(),
    {
        let r: u16 = (self.r / 8) as u16;
        let g: u16 = (self.g / 8) as u16;
        let b: u16 = (self.b / 8) as u16;
        let a: u16 = (self.a / 255) as u16;

        assert((r << 11) | (g << 6) | (b << 1) | a == r * 0x800 + g * 0x40 + b * 0x2 + a)
            by (bit_vector)
            requires
                r < 32,
                g < 32,
                b < 32,
                a < 2,
        ;
        (r << 11) | (g << 6) | (b << 1) | a
    }

    /// Packs this color into a 16-bit RGBA pixel and returns its two
    /// bytes, the high one first.
    #[inline]
    pub fn rgba16(self) -> (bytes: [u8; 2])
        ensures
            bytes[0] == self.spec_to_u16() / 256,
            bytes[1] == self.spec_to_u16() % 256,
    {
        let pixel: u16 = self.to_u16();
        assert(pixel >> 8 == pixel / 256 && pixel & 0xFF == pixel % 256) by (bit_vector);
        [(pixel >> 8) as u8, (pixel & 0xFF) as u8]
    }

    /// Brightness of the color channels, for grayscale output.
    #[inline]
    pub fn rgb_to_intensity(&self) -> (y: u8)
        ensures
            y == self.spec_intensity(),
            y == luma(self.r, self.g, self.b),
    {
        let sum: u32 = 2126 * (self.r as u32) + 7152 * (self.g as u32) + 722 * (self.b as u32)
            + 5000;
        (sum / 10000) as u8
    }
}

} // verus!
