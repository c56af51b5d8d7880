//! The three-channel color value consumed by the driver.

use vstd::prelude::*;

verus! {

/// One color of a WS2812 pixel: three 8-bit channels, plain intensities.
///
/// The caller's channel layout is red, green, blue; the wire order the driver
/// emits is green, red, blue.
#[derive(Clone, Copy, PartialEq, Eq, Structural, Debug)]
pub struct Rgb8 {
    /// red channel
    pub r: u8,
    /// green channel
    pub g: u8,
    /// blue channel
    pub b: u8,
}

} // verus!
