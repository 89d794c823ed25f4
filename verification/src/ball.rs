//! The balls: squares that fly in a straight line and turn at the left,
//! right and top walls.

use crate::arena::{ARENA_LIMIT, REACH, STEP_LIMIT};
use crate::fixed::{distance, lemma_distance_bounds, travel, UNIT};
use crate::geometry::{Rect, Vec2, COORD_LIMIT};
use crate::host::{Color, Screen, Sprite};
use crate::random::random_below;
use vstd::prelude::*;

verus! {

/// Speed of a ball, in pixels per second.
pub const BALL_SPEED: i64 = 400;

/// Width and height of a ball.
pub const BALL_SIZE: i64 = 50_000;

/// Number of headings a new ball is launched with: one for every
/// thousandth from minus one up to, but not including, one.
pub const HEADINGS: u32 = 2000;

/// A ball: the square it covers and the direction it flies in. The direction
/// has components in thousandths; it starts as a unit vector, and a wall
/// sets one component to plus or minus one, so its length may drift from one.
#[derive(Clone, Copy, Debug, PartialEq, Eq, Structural)]
pub struct Ball {
    pub square: Rect,
    pub velocity: Vec2,
}

impl Ball {
    /// A new ball with its top-left corner at `pos`, launched down the
    /// screen with the horizontal heading `heading`, in thousandths: the
    /// direction is `(heading, UNIT)` scaled to unit length.
    pub open spec fn launched(pos: Vec2, heading: int) -> Ball {
        Ball {
            square: Rect { x: pos.x, y: pos.y, w: BALL_SIZE, h: BALL_SIZE },
            velocity: (Vec2 { x: heading as i64, y: UNIT }).normalized(),
        }
    }

    /// The ball is a new ball at `pos`, launched with some heading from
    /// `-UNIT` up to, but not including, `UNIT`.
    pub open spec fn is_fresh_at(self, pos: Vec2) -> bool {
        exists|heading: int| -UNIT <= heading < UNIT && self == Ball::launched(pos, heading)
    }

    /// Both direction components lie between minus one and one.
    pub open spec fn within_unit(self) -> bool {
        &&& -UNIT <= self.velocity.x <= UNIT
        &&& -UNIT <= self.velocity.y <= UNIT
    }

    /// The ball after `dt` microseconds of flight on the given screen. It
    /// advances along its direction; then a ball left of the screen is sent
    /// right, a ball that reaches past the right edge is sent left, and a
    /// ball above the screen is sent down. The bottom edge turns nothing.
    pub open spec fn moved(self, dt: u32, screen: Screen) -> Ball {
        let x = self.square.x + distance(self.velocity.x as int, BALL_SPEED as int, dt as int);
        let y = self.square.y + distance(self.velocity.y as int, BALL_SPEED as int, dt as int);
        Ball {
            square: Rect { x: x as i64, y: y as i64, ..self.square },
            velocity: Vec2 {
                x: if x > screen.width - self.square.w {
                    (-UNIT) as i64
                } else if x < 0 {
                    UNIT
                } else {
                    self.velocity.x
                },
                y: if y < 0 {
                    UNIT
                } else {
                    self.velocity.y
                },
            },
        }
    }

    /// The ball can take its turn in a frame: its size is within the
    /// arena's limit, its direction within the unit square, and its corner
    /// so far within the coordinate limit that one step does not leave it.
    pub open spec fn can_fly(self) -> bool {
        &&& self.square.sized_for_arena()
        &&& self.within_unit()
        &&& -(COORD_LIMIT - STEP_LIMIT) <= self.square.x <= COORD_LIMIT - STEP_LIMIT
        &&& -(COORD_LIMIT - STEP_LIMIT) <= self.square.y <= COORD_LIMIT - STEP_LIMIT
    }

    /// The ball is where the simulation can keep track of it in the middle
    /// of a frame: its size is within the arena's limit, its direction
    /// within the unit square, its corner within one step of `REACH`, and
    /// where it lies beyond `REACH` to the left, to the right or above, it
    /// does not fly further out.
    pub open spec fn in_flight(self) -> bool {
        &&& self.square.sized_for_arena()
        &&& self.within_unit()
        &&& -(REACH + STEP_LIMIT) <= self.square.x <= REACH + STEP_LIMIT
        &&& -(REACH + STEP_LIMIT) <= self.square.y <= REACH + STEP_LIMIT
        &&& self.square.x < -REACH ==> self.velocity.x >= 0
        &&& self.square.x > REACH ==> self.velocity.x <= 0
        &&& self.square.y < -REACH ==> self.velocity.y >= 0
    }

    /// The ball is where the simulation can keep track of it between
    /// frames: as in flight, and not below `REACH`.
    pub open spec fn settled(self) -> bool {
        &&& self.in_flight()
        &&& self.square.y <= REACH
    }

    /// A new ball launched within `REACH` is settled, whatever its heading.
    pub proof fn lemma_fresh_settled(self, pos: Vec2)
        requires
            self.is_fresh_at(pos),
            -REACH <= pos.x <= REACH,
            -REACH <= pos.y <= REACH,
        ensures
            self.settled(),
            self.velocity.y >= 0,
    {
        let heading = choose|heading: int|
            -UNIT <= heading < UNIT && self == Ball::launched(pos, heading);
        (Vec2 { x: heading as i64, y: UNIT }).lemma_normalized_within_unit();
    }

    /// Whether the ball is settled.
    pub fn is_settled(&self) -> (yes: bool)
        ensures
            yes == self.settled(),
    {
        let far: i64 = REACH + STEP_LIMIT;
        let sized: bool = 0 <= self.square.w && self.square.w <= ARENA_LIMIT && 0 <= self.square.h
            && self.square.h <= ARENA_LIMIT;
        let unit: bool = -UNIT <= self.velocity.x && self.velocity.x <= UNIT && -UNIT
            <= self.velocity.y && self.velocity.y <= UNIT;
        let near: bool = -far <= self.square.x && self.square.x <= far && -far <= self.square.y
            && self.square.y <= REACH;
        let inward_x: bool = (self.square.x >= -REACH || self.velocity.x >= 0) && (self.square.x
            <= REACH || self.velocity.x <= 0);
        let inward_y: bool = self.square.y >= -REACH || self.velocity.y >= 0;
        sized && unit && near && inward_x && inward_y
    }

    /// A new ball at `pos` with the given horizontal heading.
    pub fn with_heading(pos: Vec2, heading: i64) -> (ball: Ball)
        requires
            -UNIT <= heading <= UNIT,
        ensures
            ball == Ball::launched(pos, heading as int),
            ball.within_unit(),
    {
        Ball {
            square: Rect::new(pos.x, pos.y, BALL_SIZE, BALL_SIZE),
            velocity: (Vec2 { x: heading, y: UNIT }).normalize(),
        }
    }

    /// A new ball at `pos`, launched down the screen with a heading drawn
    /// at random.
    pub fn new(pos: Vec2) -> (ball: Ball)
        ensures
            ball.is_fresh_at(pos),
    {
        let drawn: u32 = random_below(HEADINGS);
        let heading: i64 = drawn as i64 - UNIT;
        Ball::with_heading(pos, heading)
    }

    /// What to draw for the ball.
    pub fn draw(&self) -> (sprite: Sprite)
        ensures
            sprite == (Sprite { rect: self.square, color: Color::Black }),
    {
        Sprite { rect: self.square, color: Color::Black }
    }

    /// Advances the ball by `dt` microseconds and turns it at the left,
    /// right and top walls. Wall logic sets the vertical direction to plus
    /// one exactly when the ball ends above the screen, and leaves it alone
    /// otherwise.
    pub fn update(&mut self, dt: u32, screen: Screen)
        requires
            old(self).square.wf(),
            old(self).within_unit(),
        ensures
            *final(self) == old(self).moved(dt, screen),
            final(self).velocity.y == if final(self).square.y < 0 {
                UNIT
            } else {
                old(self).velocity.y
            },
            final(self).within_unit(),
            old(self).can_fly() ==> final(self).square.wf(),
            old(self).settled() ==> final(self).in_flight(),
    {
        proof {
            lemma_distance_bounds(self.velocity.x as int, BALL_SPEED as int, dt as int);
            lemma_distance_bounds(self.velocity.y as int, BALL_SPEED as int, dt as int);
        }
        self.square.x = self.square.x + travel(self.velocity.x, BALL_SPEED, dt);
        self.square.y = self.square.y + travel(self.velocity.y, BALL_SPEED, dt);
        if self.square.x < 0 {
            self.velocity.x = UNIT;
        }
        if self.square.x > screen.width as i64 - self.square.w {
            self.velocity.x = -UNIT;
        }
        if self.square.y < 0 {
            self.velocity.y = UNIT;
        }
    }
}

} // verus!
