//! Axis-aligned rectangles, their intersection, and the rule that pushes a
//! moving rectangle out of a resting one.

use vstd::prelude::*;

verus! {

/// Largest magnitude that a coordinate, an extent or a velocity component may
/// have when it enters an operation of this module.
pub const COORD_LIMIT: i64 = 0x0100_0000_0000_0000;

/// Absolute value of an integer.
pub open spec fn magnitude(v: int) -> int {
    if v < 0 {
        -v
    } else {
        v
    }
}

/// The smaller of two integers.
pub open spec fn lesser(a: int, b: int) -> int {
    if a <= b {
        a
    } else {
        b
    }
}

/// The larger of two integers.
pub open spec fn greater(a: int, b: int) -> int {
    if a >= b {
        a
    } else {
        b
    }
}

/// A point, an extent or a direction in the plane.
#[derive(Clone, Copy, Debug, PartialEq, Eq, Structural)]
pub struct Vec2 {
    pub x: i64,
    pub y: i64,
}

impl Vec2 {
    /// Both components lie within the coordinate limit.
    pub open spec fn wf(self) -> bool {
        &&& -COORD_LIMIT <= self.x <= COORD_LIMIT
        &&& -COORD_LIMIT <= self.y <= COORD_LIMIT
    }
}

/// An axis-aligned rectangle: top-left corner, width and height. The y axis
/// points down the screen.
#[derive(Clone, Copy, Debug, PartialEq, Eq, Structural)]
pub struct Rect {
    pub x: i64,
    pub y: i64,
    pub w: i64,
    pub h: i64,
}

impl Rect {
    /// All four fields lie within the coordinate limit.
    pub open spec fn wf(self) -> bool {
        &&& -COORD_LIMIT <= self.x <= COORD_LIMIT
        &&& -COORD_LIMIT <= self.y <= COORD_LIMIT
        &&& -COORD_LIMIT <= self.w <= COORD_LIMIT
        &&& -COORD_LIMIT <= self.h <= COORD_LIMIT
    }

    /// The x coordinate of the right edge.
    pub open spec fn right(self) -> int {
        self.x + self.w
    }

    /// The y coordinate of the bottom edge.
    pub open spec fn bottom(self) -> int {
        self.y + self.h
    }

    /// Twice the x coordinate of the centre. Doubling keeps the centre of a
    /// rectangle of odd width exact.
    pub open spec fn centre2_x(self) -> int {
        2 * self.x + self.w
    }

    /// Twice the y coordinate of the centre.
    pub open spec fn centre2_y(self) -> int {
        2 * self.y + self.h
    }

    /// Left edge of the region shared with `other`.
    pub open spec fn shared_left(self, other: Rect) -> int {
        greater(self.x as int, other.x as int)
    }

    /// Top edge of the region shared with `other`.
    pub open spec fn shared_top(self, other: Rect) -> int {
        greater(self.y as int, other.y as int)
    }

    /// Width of the region shared with `other`; negative when the two are
    /// apart along x.
    pub open spec fn shared_width(self, other: Rect) -> int {
        lesser(self.right(), other.right()) - self.shared_left(other)
    }

    /// Height of the region shared with `other`; negative when the two are
    /// apart along y.
    pub open spec fn shared_height(self, other: Rect) -> int {
        lesser(self.bottom(), other.bottom()) - self.shared_top(other)
    }

    /// The two rectangles meet: they share at least a point. Rectangles that
    /// touch along an edge or at a corner meet without overlapping.
    pub open spec fn meets(self, other: Rect) -> bool {
        self.shared_width(other) >= 0 && self.shared_height(other) >= 0
    }

    /// The two rectangles overlap: they share a region of positive width
    /// and positive height. Rectangles that only touch do not overlap.
    pub open spec fn overlaps(self, other: Rect) -> bool {
        self.shared_width(other) > 0 && self.shared_height(other) > 0
    }

    /// The region shared with `other`, if the two meet. For rectangles that
    /// only touch it has no width or no height.
    pub open spec fn intersection(self, other: Rect) -> Option<Rect> {
        if self.meets(other) {
            Some(
                Rect {
                    x: self.shared_left(other) as i64,
                    y: self.shared_top(other) as i64,
                    w: self.shared_width(other) as i64,
                    h: self.shared_height(other) as i64,
                },
            )
        } else {
            None
        }
    }

    pub fn new(x: i64, y: i64, w: i64, h: i64) -> (r: Rect)
        ensures
            r == (Rect { x, y, w, h }),
    {
        Rect { x, y, w, h }
    }

    /// The top-left corner.
    pub fn point(&self) -> (p: Vec2)
        ensures
            p == (Vec2 { x: self.x, y: self.y }),
    {
        Vec2 { x: self.x, y: self.y }
    }

    /// Width and height.
    pub fn size(&self) -> (s: Vec2)
        ensures
            s == (Vec2 { x: self.w, y: self.h }),
    {
        Vec2 { x: self.w, y: self.h }
    }

    /// The region shared with `other`, or `None` when the two do not meet.
    pub fn intersect(&self, other: Rect) -> (shared: Option<Rect>)
        requires
            self.wf(),
            other.wf(),
        ensures
            shared == self.intersection(other),
    {
        let left: i64 = if self.x >= other.x {
            self.x
        } else {
            other.x
        };
        let top: i64 = if self.y >= other.y {
            self.y
        } else {
            other.y
        };
        let self_right: i64 = self.x + self.w;
        let other_right: i64 = other.x + other.w;
        let right: i64 = if self_right <= other_right {
            self_right
        } else {
            other_right
        };
        let self_bottom: i64 = self.y + self.h;
        let other_bottom: i64 = other.y + other.h;
        let bottom: i64 = if self_bottom <= other_bottom {
            self_bottom
        } else {
            other_bottom
        };
        if right < left || bottom < top {
            return None;
        }
        Some(Rect { x: left, y: top, w: right - left, h: bottom - top })
    }
}

/// Direction along x from the centre of `a` to the centre of `b`: `1` when
/// the centre of `b` lies to the right or the two coincide, `-1` otherwise.
pub open spec fn toward_x(a: Rect, b: Rect) -> int {
    if b.centre2_x() - a.centre2_x() >= 0 {
        1
    } else {
        -1
    }
}

/// Direction along y from the centre of `a` to the centre of `b`: `1` when
/// the centre of `b` lies below or the two coincide, `-1` otherwise.
pub open spec fn toward_y(a: Rect, b: Rect) -> int {
    if b.centre2_y() - a.centre2_y() >= 0 {
        1
    } else {
        -1
    }
}

/// The amount `amount` laid along the direction `toward`, which is `1` or
/// `-1`: their product.
pub open spec fn directed(toward: int, amount: int) -> int {
    if toward >= 0 {
        amount
    } else {
        -amount
    }
}

/// An overlap of `a` with `b` is resolved along y: the shared region is wider
/// than it is high. Otherwise it is resolved along x.
pub open spec fn resolves_along_y(a: Rect, b: Rect) -> bool {
    a.shared_width(b) > a.shared_height(b)
}

/// Where `a` rests after it has been pushed out of `b`: unchanged when the
/// two do not overlap, else moved along one axis, away from the centre of `b`, by
/// the extent of the shared region along that axis.
pub open spec fn pushed_out(a: Rect, b: Rect) -> Rect {
    if !a.overlaps(b) {
        a
    } else if resolves_along_y(a, b) {
        Rect { y: (a.y - directed(toward_y(a, b), a.shared_height(b))) as i64, ..a }
    } else {
        Rect { x: (a.x - directed(toward_x(a, b), a.shared_width(b))) as i64, ..a }
    }
}

/// The velocity of `a` after it has been pushed out of `b`: unchanged when
/// the two do not overlap, else the component along the resolved axis keeps its
/// magnitude and points away from the centre of `b`.
pub open spec fn bounced(a: Rect, vel: Vec2, b: Rect) -> Vec2 {
    if !a.overlaps(b) {
        vel
    } else if resolves_along_y(a, b) {
        Vec2 { y: (-directed(toward_y(a, b), magnitude(vel.y as int))) as i64, ..vel }
    } else {
        Vec2 { x: (-directed(toward_x(a, b), magnitude(vel.x as int))) as i64, ..vel }
    }
}

/// Pushes the moving rectangle `a` out of the resting rectangle `b` and turns
/// its velocity away. Returns whether the two overlapped; when they did not,
/// nothing changes. Rectangles that only touch do not overlap.
pub fn resolve_collision(a: &mut Rect, vel: &mut Vec2, b: &Rect) -> (hit: bool)
    requires
        old(a).wf(),
        old(vel).wf(),
        b.wf(),
    ensures
        hit == old(a).overlaps(*b),
        *final(a) == pushed_out(*old(a), *b),
        *final(vel) == bounced(*old(a), *old(vel), *b),
        !hit ==> *final(a) == *old(a) && *final(vel) == *old(vel),
{
    match a.intersect(*b) {
        Some(shared) => {
            if shared.w <= 0 || shared.h <= 0 {
                return false;
            }
            let toward_right: bool = (2 * b.x + b.w) - (2 * a.x + a.w) >= 0;
            let toward_down: bool = (2 * b.y + b.h) - (2 * a.y + a.h) >= 0;
            if shared.w > shared.h {
                let speed: i64 = if vel.y < 0 {
                    -vel.y
                } else {
                    vel.y
                };
                if toward_down {
                    a.y = a.y - shared.h;
                    vel.y = -speed;
                } else {
                    a.y = a.y + shared.h;
                    vel.y = speed;
                }
            } else {
                let speed: i64 = if vel.x < 0 {
                    -vel.x
                } else {
                    vel.x
                };
                if toward_right {
                    a.x = a.x - shared.w;
                    vel.x = -speed;
                } else {
                    a.x = a.x + shared.w;
                    vel.x = speed;
                }
            }
            true
        },
        None => false,
    }
}

/// A displacement or a velocity component `v` does not lead toward the side
/// that `toward` names: it is zero or of the opposite sign.
pub open spec fn leads_away(toward: int, v: int) -> bool {
    if toward >= 0 {
        v <= 0
    } else {
        v >= 0
    }
}

/// Rectangles that do not overlap stay as they are: the moving rectangle
/// keeps its place and its velocity.
pub proof fn lemma_no_overlap_is_untouched(a: Rect, vel: Vec2, b: Rect)
    requires
        !a.overlaps(b),
    ensures
        pushed_out(a, b) == a,
        bounced(a, vel, b) == vel,
{
}

/// Rectangles that overlap are resolved along exactly one axis. Along that
/// axis the moving rectangle changes its position, away from the centre of
/// the resting one, and the velocity component keeps its magnitude and does
/// not point toward that centre. The position along the other axis, the
/// other velocity component and the size stay the same.
pub proof fn lemma_overlap_moves_one_axis(a: Rect, vel: Vec2, b: Rect)
    requires
        a.wf(),
        vel.wf(),
        b.wf(),
        a.overlaps(b),
    ensures
        (pushed_out(a, b).x != a.x) != (pushed_out(a, b).y != a.y),
        pushed_out(a, b).w == a.w,
        pushed_out(a, b).h == a.h,
        resolves_along_y(a, b) ==> {
            &&& pushed_out(a, b).x == a.x
            &&& bounced(a, vel, b).x == vel.x
            &&& leads_away(toward_y(a, b), pushed_out(a, b).y - a.y)
            &&& pushed_out(a, b).y != a.y
            &&& leads_away(toward_y(a, b), bounced(a, vel, b).y as int)
            &&& magnitude(bounced(a, vel, b).y as int) == magnitude(vel.y as int)
        },
        !resolves_along_y(a, b) ==> {
            &&& pushed_out(a, b).y == a.y
            &&& bounced(a, vel, b).y == vel.y
            &&& leads_away(toward_x(a, b), pushed_out(a, b).x - a.x)
            &&& pushed_out(a, b).x != a.x
            &&& leads_away(toward_x(a, b), bounced(a, vel, b).x as int)
            &&& magnitude(bounced(a, vel, b).x as int) == magnitude(vel.x as int)
        },
{
}

} // verus!
