//! The color model.

use crate::text::{hex_byte, push_hex_byte};
use vstd::prelude::*;

verus! {

/// An RGBA color: four channels of eight bits each. Two colors are equal when
/// all four channels are, alpha included.
#[derive(Debug, Clone, Copy, PartialEq, Eq, Hash, Structural)]
pub struct Color {
    pub r: u8,
    pub g: u8,
    pub b: u8,
    pub a: u8,
}

impl Color {
    /// The red, green and blue channels as six upper-case hexadecimal digits.
    pub open spec fn hex(self) -> Seq<char> {
        hex_byte(self.r) + hex_byte(self.g) + hex_byte(self.b)
    }

    /// Builds a color from its four channels.
    pub fn new(r: u8, g: u8, b: u8, a: u8) -> (c: Color)
        ensures
            c == (Color { r, g, b, a }),
    {
        Color { r, g, b, a }
    }

    /// The color of a decoded pixel, whose channels come in the order red,
    /// green, blue, alpha.
    pub fn from_rgba(rgba: &image::Rgba<u8>) -> (c: Color)
        ensures
            c == (Color { r: rgba.0[0], g: rgba.0[1], b: rgba.0[2], a: rgba.0[3] }),
    {
        Color::new(rgba.0[0], rgba.0[1], rgba.0[2], rgba.0[3])
    }

    /// Whether the alpha channel lies strictly below the threshold.
    pub fn is_transparent(&self, threshold: u8) -> (t: bool)
        ensures
            t == (self.a < threshold),
    {
        self.a < threshold
    }

    /// The color as six upper-case hexadecimal digits, two for each of red,
    /// green and blue; alpha takes no part.
    pub fn to_hex(&self) -> (s: String)
        ensures
            s@ == self.hex(),
    {
        let mut s = String::new();
        push_hex_byte(&mut s, self.r);
        push_hex_byte(&mut s, self.g);
        push_hex_byte(&mut s, self.b);
        assert(s@ =~= self.hex());
        s
    }
}

} // verus!
