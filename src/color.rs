use vstd::prelude::*;

verus! {

/// An RGBA color with four 8-bit channels.
#[derive(Debug, Clone, Copy, PartialEq, Eq, Hash, Structural)]
pub struct Color {
    pub r: u8,
    pub g: u8,
    pub b: u8,
    pub a: u8,
}

impl Color {
    /// Opaque white.
    pub fn white() -> (c: Color)
        ensures
            c == (Color { r: 255, g: 255, b: 255, a: 255 }),
    {
        Color { r: 255, g: 255, b: 255, a: 255 }
    }

    /// Opaque black.
    pub fn black() -> (c: Color)
        ensures
            c == (Color { r: 0, g: 0, b: 0, a: 255 }),
    {
        Color { r: 0, g: 0, b: 0, a: 255 }
    }

    pub fn from_rgba_u8(rgba: [u8; 4]) -> (c: Color)
        ensures
            c.r == rgba[0],
            c.g == rgba[1],
            c.b == rgba[2],
            c.a == rgba[3],
    {
        Color { r: rgba[0], g: rgba[1], b: rgba[2], a: rgba[3] }
    }

    pub fn to_rgba_u8(&self) -> (rgba: [u8; 4])
        ensures
            rgba@ == seq![self.r, self.g, self.b, self.a],
    {
        [self.r, self.g, self.b, self.a]
    }

    /// The three color channels without alpha, as shaders consume them.
    pub fn to_rgb_u8(&self) -> (rgb: [u8; 3])
        ensures
            rgb@ == seq![self.r, self.g, self.b],
    {
        [self.r, self.g, self.b]
    }
}

} // verus!
