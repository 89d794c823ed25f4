//! The paddle: a bar that moves left and right and stays on the screen.

use crate::fixed::{distance, lemma_distance_bounds, travel, UNIT};
use crate::geometry::Rect;
use crate::host::{Color, Screen, Sprite};
use vstd::prelude::*;

verus! {

/// Width of the paddle.
pub const PLAYER_BAR_WIDTH: i64 = 150_000;

/// Height of the paddle.
pub const PLAYER_BAR_HEIGHT: i64 = 32_000;

/// Speed of the paddle, in pixels per second.
pub const PLAYER_SPEED: i64 = 750;

/// Distance from the bottom of the screen to the top of the paddle.
pub const PLAYER_RISE: i64 = 100_000;

/// The direction that the held keys steer in: `1` for right alone, `-1` for
/// left alone, `0` for both or neither.
pub open spec fn steering(left: bool, right: bool) -> int {
    if right && !left {
        1
    } else if left && !right {
        -1
    } else {
        0
    }
}

/// A position brought back onto the screen: first raised to zero, then
/// lowered to the last position at which something `width` wide still fits.
/// On a screen narrower than `width` that position is negative.
pub open spec fn kept_on_screen(x: int, width: int, screen_width: int) -> int {
    let raised = if x < 0 {
        0
    } else {
        x
    };
    if raised > screen_width - width {
        screen_width - width
    } else {
        raised
    }
}

/// The paddle.
#[derive(Clone, Copy, Debug, PartialEq, Eq, Structural)]
pub struct Player {
    pub rectangle: Rect,
}

impl Player {
    /// The paddle as a round begins: centred horizontally, `PLAYER_RISE`
    /// above the bottom of the screen.
    pub open spec fn at_start(screen: Screen) -> Player {
        Player {
            rectangle: Rect {
                x: (screen.width / 2 - PLAYER_BAR_WIDTH / 2) as i64,
                y: (screen.height - PLAYER_RISE) as i64,
                w: PLAYER_BAR_WIDTH,
                h: PLAYER_BAR_HEIGHT,
            },
        }
    }

    /// The paddle after `dt` microseconds with the given keys held.
    pub open spec fn moved(self, dt: u32, left: bool, right: bool, screen: Screen) -> Player {
        let reached = self.rectangle.x + distance(
            steering(left, right) * UNIT,
            PLAYER_SPEED as int,
            dt as int,
        );
        Player {
            rectangle: Rect {
                x: kept_on_screen(reached, self.rectangle.w as int, screen.width as int) as i64,
                ..self.rectangle
            },
        }
    }

    pub fn new(screen: Screen) -> (player: Player)
        ensures
            player == Player::at_start(screen),
            player.rectangle.rests_in_arena(),
    {
        Player {
            rectangle: Rect {
                x: (screen.width / 2) as i64 - PLAYER_BAR_WIDTH / 2,
                y: screen.height as i64 - PLAYER_RISE,
                w: PLAYER_BAR_WIDTH,
                h: PLAYER_BAR_HEIGHT,
            },
        }
    }

    /// What to draw for the paddle.
    pub fn draw(&self) -> (sprite: Sprite)
        ensures
            sprite == (Sprite { rect: self.rectangle, color: Color::Blue }),
    {
        Sprite { rect: self.rectangle, color: Color::Blue }
    }

    /// Moves the paddle for `dt` microseconds in the direction that the held
    /// keys steer in, then brings it back onto the screen. Whatever the keys
    /// and wherever it was, on a screen that is at least as wide as the
    /// paddle it ends within the screen.
    pub fn update(&mut self, dt: u32, left: bool, right: bool, screen: Screen)
        requires
            old(self).rectangle.wf(),
        ensures
            *final(self) == old(self).moved(dt, left, right, screen),
            final(self).rectangle.w <= screen.width ==> 0 <= final(self).rectangle.x
                <= screen.width - final(self).rectangle.w,
            old(self).rectangle.rests_in_arena() ==> final(self).rectangle.rests_in_arena(),
    {
        let x_move: i64 = match (left, right) {
            (false, true) => 1,
            (true, false) => -1,
            _ => 0,
        };
        proof {
            lemma_distance_bounds(steering(left, right) * UNIT, PLAYER_SPEED as int, dt as int);
        }
        self.rectangle.x = self.rectangle.x + travel(x_move * UNIT, PLAYER_SPEED, dt);
        if self.rectangle.x < 0 {
            self.rectangle.x = 0;
        }
        if self.rectangle.x > screen.width as i64 - self.rectangle.w {
            self.rectangle.x = screen.width as i64 - self.rectangle.w;
        }
    }
}

} // verus!
