//! What the host hands to the simulation each frame, and what the simulation
//! asks the host to draw.

use crate::geometry::Rect;
use vstd::prelude::*;

verus! {

/// Size of the drawing surface, in thousandths of a pixel.
#[derive(Clone, Copy, Debug, PartialEq, Eq, Structural)]
pub struct Screen {
    pub width: u32,
    pub height: u32,
}

/// The key states read at the start of a frame. `left` and `right` hold
/// while the key is down; `start` holds only on the frame in which its key
/// goes down.
#[derive(Clone, Copy, Debug, PartialEq, Eq, Structural)]
pub struct Input {
    pub left: bool,
    pub right: bool,
    pub start: bool,
}

/// The colours that the entities are drawn in.
#[derive(Clone, Copy, Debug, PartialEq, Eq, Structural)]
pub enum Color {
    Blue,
    Red,
    Orange,
    Green,
    Black,
}

/// A request to fill a rectangle with a colour.
#[derive(Clone, Copy, Debug, PartialEq, Eq, Structural)]
pub struct Sprite {
    pub rect: Rect,
    pub color: Color,
}

} // verus!
