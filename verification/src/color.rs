use vstd::prelude::*;

verus! {

/// One pixel of the canvas buffer: the 4-channel form of a [`Color`].
#[derive(Clone, Copy, PartialEq, Eq, Structural, Debug)]
pub struct Rgba {
    pub r: u8,
    pub g: u8,
    pub b: u8,
    pub a: u8,
}

/// A 3-channel color; each channel is an 8-bit intensity.
#[derive(Clone, Copy, PartialEq, Eq, Structural, Debug, Hash)]
pub struct Color {
    pub red: u8,
    pub green: u8,
    pub blue: u8,
}

/// The pixel a color becomes in the buffer: the alpha byte is always forced
/// to zero, whatever the channels hold.
pub open spec fn color_rgba(c: Color) -> Rgba {
    Rgba { r: c.red, g: c.green, b: c.blue, a: 0 }
}

impl Color {
    pub fn new(red: u8, green: u8, blue: u8) -> (c: Color)
        ensures
            c == (Color { red, green, blue }),
    {
        Color { red, green, blue }
    }

    /// The 4-channel pixel form of this color; the alpha byte is always zero.
    pub fn to_rgba(self) -> (p: Rgba)
        ensures
            p == color_rgba(self),
    {
        Rgba { r: self.red, g: self.green, b: self.blue, a: 0 }
    }
}

} // verus!
