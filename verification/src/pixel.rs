use vstd::prelude::*;

verus! {

/// One 8-bit RGBA pixel, the unit of exchange between the verified core and
/// the image codecs around it. Channels are in display (gamma-encoded) space.
#[derive(Clone, Copy, Debug, PartialEq, Eq, Structural)]
pub struct Rgba {
    pub r: u8,
    pub g: u8,
    pub b: u8,
    pub a: u8,
}

} // verus!
