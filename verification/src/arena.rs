//! The bounds within which the simulation keeps its entities, so that no
//! coordinate ever leaves the range of the machine integers.

use crate::geometry::Rect;
use vstd::prelude::*;

verus! {

/// Largest magnitude of a coordinate of a resting rectangle (the paddle, a
/// block), and largest width or height of any entity.
pub const ARENA_LIMIT: i64 = 0x0100_0000_0000;

/// A rectangle that has just been pushed out of a resting one lies within
/// this distance of the origin along both axes.
pub const REACH: i64 = 3 * ARENA_LIMIT;

/// No ball moves further than this in one time step along one axis.
pub const STEP_LIMIT: i64 = 0x8000_0000;

impl Rect {
    /// The rectangle can serve as a resting obstacle: its corner lies within
    /// the arena and its width and height are between zero and the limit.
    pub open spec fn rests_in_arena(self) -> bool {
        &&& -ARENA_LIMIT <= self.x <= ARENA_LIMIT
        &&& -ARENA_LIMIT <= self.y <= ARENA_LIMIT
        &&& 0 <= self.w <= ARENA_LIMIT
        &&& 0 <= self.h <= ARENA_LIMIT
    }

    /// The width and height are between zero and the limit.
    pub open spec fn sized_for_arena(self) -> bool {
        &&& 0 <= self.w <= ARENA_LIMIT
        &&& 0 <= self.h <= ARENA_LIMIT
    }

    /// The corner lies within `REACH` of the origin along both axes.
    pub open spec fn within_reach(self) -> bool {
        &&& -REACH <= self.x <= REACH
        &&& -REACH <= self.y <= REACH
    }

    /// Whether the rectangle can serve as a resting obstacle.
    pub fn is_resting_in_arena(&self) -> (yes: bool)
        ensures
            yes == self.rests_in_arena(),
    {
        let placed: bool = -ARENA_LIMIT <= self.x && self.x <= ARENA_LIMIT && -ARENA_LIMIT
            <= self.y && self.y <= ARENA_LIMIT;
        let sized: bool = 0 <= self.w && self.w <= ARENA_LIMIT && 0 <= self.h && self.h
            <= ARENA_LIMIT;
        placed && sized
    }
}

} // verus!
