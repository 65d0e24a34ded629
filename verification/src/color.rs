//! The color value type, its integer constructors, its accessors and the
//! named palette.

use vstd::prelude::*;
use crate::binary64::{quantize, quantized};

verus! {

/// The four channel intensities of a color as mathematical integers.
pub ghost struct Channels {
    pub red: int,
    pub green: int,
    pub blue: int,
    pub alpha: int,
}

impl Channels {
    /// Every channel lies in the byte range.
    pub open spec fn in_range(self) -> bool {
        &&& 0 <= self.red <= 255
        &&& 0 <= self.green <= 255
        &&& 0 <= self.blue <= 255
        &&& 0 <= self.alpha <= 255
    }

    /// Full opacity.
    pub open spec fn opaque(self) -> bool {
        self.alpha == 255
    }
}

/// An 8-bit-per-channel color: red, green, blue and alpha, in that order.
/// An alpha of 255 is fully opaque, an alpha of 0 fully transparent.
#[derive(Clone, Copy, PartialEq, Eq, Hash, Debug, Structural)]
pub struct Color(pub u8, pub u8, pub u8, pub u8);

impl View for Color {
    type V = Channels;

    open spec fn view(&self) -> Channels {
        Channels {
            red: self.0 as int,
            green: self.1 as int,
            blue: self.2 as int,
            alpha: self.3 as int,
        }
    }
}

impl Color {
    /// The channels that a packed 24-bit value denotes: red in bits 16 to 23,
    /// green in bits 8 to 15, blue in bits 0 to 7, and full opacity.
    pub open spec fn unpacked(packed: u32) -> Channels {
        Channels {
            red: (packed as int / 0x1_0000) % 0x100,
            green: (packed as int / 0x100) % 0x100,
            blue: packed as int % 0x100,
            alpha: 255,
        }
    }

    /// Reads an opaque color out of a packed 24-bit value. Any 32-bit value is
    /// accepted; bits 24 to 31 are ignored.
    pub fn rgb24(rgb: u32) -> (c: Color)
        ensures
            c@ == Self::unpacked(rgb),
    {
        let r: u32 = (rgb & 0xff0000) >> 16;
        let g: u32 = (rgb & 0x00ff00) >> 8;
        let b: u32 = rgb & 0x0000ff;
        assert(r == (rgb / 0x1_0000) % 0x100 && g == (rgb / 0x100) % 0x100 && b == rgb % 0x100)
            by (bit_vector)
            requires
                r == (rgb & 0xff0000) >> 16,
                g == (rgb & 0x00ff00) >> 8,
                b == rgb & 0x0000ff,
        ;
        Self::rgb(r as u8, g as u8, b as u8)
    }

    /// An opaque color of the given red, green and blue intensities.
    pub fn rgb(r: u8, g: u8, b: u8) -> (c: Color)
        ensures
            c@ == (Channels { red: r as int, green: g as int, blue: b as int, alpha: 255 }),
    {
        Color(r, g, b, 0xff)
    }

    /// A color of the given red, green, blue and alpha intensities.
    pub fn rgba(r: u8, g: u8, b: u8, a: u8) -> (c: Color)
        ensures
            c@ == (Channels { red: r as int, green: g as int, blue: b as int, alpha: a as int }),
    {
        Color(r, g, b, a)
    }

    /// An opaque color from three intensities that were scaled to the byte
    /// range, each given as the bits of a double-precision number. Each is
    /// clamped and truncated on its own; nothing is rejected.
    pub fn rgb_scaled(r: u64, g: u64, b: u64) -> (c: Color)
        ensures
            c@ == (Channels {
                red: quantized(r),
                green: quantized(g),
                blue: quantized(b),
                alpha: 255,
            }),
    {
        Self::rgb(quantize(r), quantize(g), quantize(b))
    }

    /// A color from four scaled intensities, alpha treated like the others.
    pub fn rgba_scaled(r: u64, g: u64, b: u64, a: u64) -> (c: Color)
        ensures
            c@ == (Channels {
                red: quantized(r),
                green: quantized(g),
                blue: quantized(b),
                alpha: quantized(a),
            }),
    {
        Self::rgba(quantize(r), quantize(g), quantize(b), quantize(a))
    }

    /// The red intensity.
    pub fn r(self) -> (v: u8)
        ensures
            v == self@.red,
    {
        self.0
    }

    /// The green intensity.
    pub fn g(self) -> (v: u8)
        ensures
            v == self@.green,
    {
        self.1
    }

    /// The blue intensity.
    pub fn b(self) -> (v: u8)
        ensures
            v == self@.blue,
    {
        self.2
    }

    /// The alpha intensity.
    pub fn a(self) -> (v: u8)
        ensures
            v == self@.alpha,
    {
        self.3
    }

    /// Black with no opacity at all.
    pub fn transparent() -> (c: Color)
        ensures
            c@ == (Channels { red: 0, green: 0, blue: 0, alpha: 0 }),
    {
        Self::rgba(0, 0, 0, 0)
    }

    /// Red at full intensity.
    pub fn red() -> (c: Color)
        ensures
            c@ == (Channels { red: 255, green: 0, blue: 0, alpha: 255 }),
    {
        Self::rgb(0xff, 0, 0)
    }

    /// Green at full intensity.
    pub fn green() -> (c: Color)
        ensures
            c@ == (Channels { red: 0, green: 255, blue: 0, alpha: 255 }),
    {
        Self::rgb(0, 0xff, 0)
    }

    /// Blue at full intensity.
    pub fn blue() -> (c: Color)
        ensures
            c@ == (Channels { red: 0, green: 0, blue: 255, alpha: 255 }),
    {
        Self::rgb(0, 0, 0xff)
    }

    /// Green and blue at full intensity.
    pub fn cyan() -> (c: Color)
        ensures
            c@ == (Channels { red: 0, green: 255, blue: 255, alpha: 255 }),
    {
        Self::rgb(0, 0xff, 0xff)
    }

    /// Red and blue at full intensity.
    pub fn magenta() -> (c: Color)
        ensures
            c@ == (Channels { red: 255, green: 0, blue: 255, alpha: 255 }),
    {
        Self::rgb(0xff, 0, 0xff)
    }

    /// Red and green at full intensity.
    pub fn yellow() -> (c: Color)
        ensures
            c@ == (Channels { red: 255, green: 255, blue: 0, alpha: 255 }),
    {
        Self::rgb(0xff, 0xff, 0)
    }

    /// All three at full intensity.
    pub fn white() -> (c: Color)
        ensures
            c@ == (Channels { red: 255, green: 255, blue: 255, alpha: 255 }),
    {
        Self::rgb(0xff, 0xff, 0xff)
    }

    /// Opaque black.
    pub fn black() -> (c: Color)
        ensures
            c@ == (Channels { red: 0, green: 0, blue: 0, alpha: 255 }),
    {
        Self::rgb(0, 0, 0)
    }

    /// Every intensity at 127, just under half.
    pub fn grey() -> (c: Color)
        ensures
            c@ == (Channels { red: 127, green: 127, blue: 127, alpha: 255 }),
    {
        Self::rgb(0x7f, 0x7f, 0x7f)
    }

    /// Every color keeps each of its channels in the byte range.
    pub proof fn lemma_channels_in_range(c: Color)
        ensures
            c@.in_range(),
    {
    }

    /// A color is nothing but its channels: two colors with the same channels
    /// are the same color.
    pub proof fn lemma_view_injective(c1: Color, c2: Color)
        requires
            c1@ == c2@,
        ensures
            c1 == c2,
    {
    }

    /// Whatever is packed, the color read out of it is opaque and in range.
    pub proof fn lemma_unpacked_opaque(packed: u32)
        ensures
            Self::unpacked(packed).opaque(),
            Self::unpacked(packed).in_range(),
    {
    }

    /// Packing three bytes and reading them back gives the same three bytes.
    pub proof fn lemma_unpacked_of_packed(r: u8, g: u8, b: u8)
        ensures
            Self::unpacked((r * 0x1_0000 + g * 0x100 + b) as u32) == (Channels {
                red: r as int,
                green: g as int,
                blue: b as int,
                alpha: 255,
            }),
    {
    }

    /// The highest byte of a packed value has no part in the color.
    pub proof fn lemma_unpacked_ignores_high_byte(packed: u32)
        ensures
            Self::unpacked(packed) == Self::unpacked(packed % 0x100_0000),
    {
        let low: u32 = packed % 0x100_0000;
        assert((low / 0x1_0000) % 0x100 == (packed / 0x1_0000) % 0x100
            && (low / 0x100) % 0x100 == (packed / 0x100) % 0x100
            && low % 0x100 == packed % 0x100) by (bit_vector)
            requires
                low == packed % 0x100_0000,
        ;
    }
}

} // verus!
