//! The blocks that the balls wear down.

use crate::geometry::{Rect, Vec2};
use crate::host::{Color, Sprite};
use vstd::prelude::*;

verus! {

/// Width of a block.
pub const BLOCK_WIDTH: i64 = 80_000;

/// Height of a block.
pub const BLOCK_HEIGHT: i64 = 32_000;

/// Hits that a new block withstands.
pub const BLOCK_LIVES: i32 = 2;

/// What a block does when it is destroyed.
#[derive(Clone, Copy, Debug, PartialEq, Eq, Structural)]
pub enum BlockType {
    /// Nothing beyond the score.
    Regular,
    /// A new ball is launched from where the destroying ball is.
    SpawnBallOnDeath,
}

/// A block: where it is, how many hits it still withstands, and its kind.
#[derive(Clone, Copy, Debug, PartialEq, Eq, Structural)]
pub struct Block {
    pub rectangle: Rect,
    pub lives: i32,
    pub block_type: BlockType,
}

impl Block {
    /// A block that has never been hit, with its top-left corner at `pos`.
    pub open spec fn fresh(pos: Vec2, block_type: BlockType) -> Block {
        Block {
            rectangle: Rect { x: pos.x, y: pos.y, w: BLOCK_WIDTH, h: BLOCK_HEIGHT },
            lives: BLOCK_LIVES,
            block_type,
        }
    }

    /// The block still stands: balls collide with it and it is kept at the
    /// end of the frame.
    pub open spec fn is_active(self) -> bool {
        self.lives > 0
    }

    /// The block has the lives of a block that is held between frames: at
    /// least one, and no more than a new block has.
    pub open spec fn lives_in_range(self) -> bool {
        1 <= self.lives <= BLOCK_LIVES
    }

    /// The colour the block is drawn in: a special block is green whatever
    /// its state, a regular block red while unhit and orange after.
    pub open spec fn color(self) -> Color {
        match self.block_type {
            BlockType::Regular => if self.lives == BLOCK_LIVES {
                Color::Red
            } else {
                Color::Orange
            },
            BlockType::SpawnBallOnDeath => Color::Green,
        }
    }

    /// The block with one hit taken.
    pub open spec fn struck(self) -> Block {
        Block { lives: (self.lives - 1) as i32, ..self }
    }

    pub fn new(pos: Vec2, block_type: BlockType) -> (block: Block)
        ensures
            block == Block::fresh(pos, block_type),
    {
        Block {
            rectangle: Rect::new(pos.x, pos.y, BLOCK_WIDTH, BLOCK_HEIGHT),
            lives: BLOCK_LIVES,
            block_type,
        }
    }

    /// What to draw for the block.
    pub fn draw(&self) -> (sprite: Sprite)
        ensures
            sprite == (Sprite { rect: self.rectangle, color: self.color() }),
    {
        let color = match self.block_type {
            BlockType::Regular => {
                match self.lives {
                    2 => Color::Red,
                    _ => Color::Orange,
                }
            },
            BlockType::SpawnBallOnDeath => Color::Green,
        };
        Sprite { rect: self.rectangle, color }
    }
}

} // verus!
