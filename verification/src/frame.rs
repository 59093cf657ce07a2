//! Sizes and positions in a picture.

use vstd::prelude::*;

verus! {

/// The size of a picture in pixels.
#[derive(Clone, Copy, Debug, PartialEq, Eq, Structural)]
pub struct FrameSize {
    pub width: u32,
    pub height: u32,
}

/// A position in a picture, in pixels from its upper left corner.
#[derive(Clone, Copy, Debug, PartialEq, Eq, Structural)]
pub struct FramePoint {
    pub x: u32,
    pub y: u32,
}

/// A percentage, held as the bits of its single precision number.
#[derive(Clone, Copy, Debug, PartialEq, Eq, Structural)]
pub struct Percent {
    pub bits: u32,
}

} // verus!
