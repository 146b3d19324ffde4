//! Packed 32-bit colours as CEF expects them.
use vstd::prelude::*;

verus! {

/// The integer that four bytes spell when read most significant first.
pub open spec fn be_word(b0: u8, b1: u8, b2: u8, b3: u8) -> int {
    b0 * 16777216 + b1 * 65536 + b2 * 256 + b3
}

/// A colour packed into one 32-bit word.
#[derive(Debug, Clone, Copy)]
pub struct Color(pub u32);

impl Color {
    /// Packs red, green, blue and alpha, red in the most significant byte.
    pub fn from_rgba(r: u8, g: u8, b: u8, a: u8) -> (c: Color)
        ensures
            c.0 == be_word(r, g, b, a),
    {
        Color(pack_be(r, g, b, a))
    }

    /// Packs alpha, red, green and blue, alpha in the most significant byte.
    pub fn from_argb(a: u8, r: u8, g: u8, b: u8) -> (c: Color)
        ensures
            c.0 == be_word(a, r, g, b),
    {
        Color(pack_be(a, r, g, b))
    }

    /// The packed word handed to CEF.
    pub fn to_color(&self) -> (w: u32)
        ensures
            w == self.0,
    {
        self.0
    }
}

fn pack_be(b0: u8, b1: u8, b2: u8, b3: u8) -> (w: u32)
    ensures
        w == be_word(b0, b1, b2, b3),
{
    (b0 as u32) * 16777216 + (b1 as u32) * 65536 + (b2 as u32) * 256 + (b3 as u32)
}

} // verus!
