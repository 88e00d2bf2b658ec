//! RGBA colours with one byte per channel.
//!
//! Channels range over `[0, 255]`; addition saturates at the top of that
//! range, and interpolation weighting is done with exact rational weights
//! by the rasterizer.

use vstd::prelude::*;

verus! {

/// An RGBA colour, one byte per channel.
#[derive(Clone, Copy, Debug, PartialEq, Eq, Structural)]
pub struct Colour {
    pub red: u8,
    pub green: u8,
    pub blue: u8,
    pub alpha: u8,
}

impl Colour {
    /// The blank (fully transparent black) colour.
    pub fn new() -> (c: Colour)
        ensures
            c == (Colour { red: 0, green: 0, blue: 0, alpha: 0 }),
    {
        Colour { red: 0, green: 0, blue: 0, alpha: 0 }
    }

    /// Builds a colour from its four channels.
    pub fn from_channels(red: u8, green: u8, blue: u8, alpha: u8) -> (c: Colour)
        ensures
            c == (Colour { red, green, blue, alpha }),
    {
        Colour { red, green, blue, alpha }
    }

    /// The four channels in `[red, green, blue, alpha]` order.
    pub fn to_bytes(&self) -> (b: [u8; 4])
        ensures
            b[0] == self.red,
            b[1] == self.green,
            b[2] == self.blue,
            b[3] == self.alpha,
    {
        [self.red, self.green, self.blue, self.alpha]
    }

    /// Channel-wise addition, saturating at 255 in each channel.
    pub fn saturating_add(&self, rhs: &Colour) -> (c: Colour)
        ensures
            c.red == if self.red + rhs.red <= 255 { self.red + rhs.red } else { 255int },
            c.green == if self.green + rhs.green <= 255 { self.green + rhs.green } else { 255int },
            c.blue == if self.blue + rhs.blue <= 255 { self.blue + rhs.blue } else { 255int },
            c.alpha == if self.alpha + rhs.alpha <= 255 { self.alpha + rhs.alpha } else { 255int },
    {
        Colour {
            red: self.red.saturating_add(rhs.red),
            green: self.green.saturating_add(rhs.green),
            blue: self.blue.saturating_add(rhs.blue),
            alpha: self.alpha.saturating_add(rhs.alpha),
        }
    }
}

} // verus!
