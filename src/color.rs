use crate::ieee32::Ieee32;
use vstd::prelude::*;

verus! {

/// An 8-bit RGBA color.
#[derive(Clone, Copy, Debug, PartialEq, Eq, Structural)]
pub struct Rgba8 {
    pub r: u8,
    pub g: u8,
    pub b: u8,
    pub a: u8,
}

impl Rgba8 {
    pub fn new(r: u8, g: u8, b: u8, a: u8) -> (c: Rgba8)
        ensures
            c == (Rgba8 { r, g, b, a }),
    {
        Rgba8 { r, g, b, a }
    }

    /// A color from three channel intensities, each truncated to the 8-bit
    /// range as `x as u8` does, and an alpha taken as it is.
    pub fn from_channels(r: Ieee32, g: Ieee32, b: Ieee32, a: u8) -> (c: Rgba8)
        ensures
            c == (Rgba8 {
                r: r.saturated_u8(),
                g: g.saturated_u8(),
                b: b.saturated_u8(),
                a,
            }),
    {
        Rgba8 { r: r.to_u8(), g: g.to_u8(), b: b.to_u8(), a }
    }
}

} // verus!
