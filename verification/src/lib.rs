//! Simulation core of a brick-breaking arcade game: a paddle keeps one or
//! more balls in play, and the balls wear down a grid of blocks.
//!
//! The core is pure computation. A host owns the window: each frame it reads
//! the keys, the time since the last frame and the size of the screen, hands
//! them to [`game::Game::update`], and then draws what [`game::Game::draw`]
//! and [`game::Game::caption`] ask for.
//!
//! All quantities are integers. A length is a count of thousandths of a
//! pixel, a direction component a count of thousandths, a time span a count
//! of microseconds. The origin is the top-left corner of the screen and y
//! grows downward.
//!
//! - [`geometry`]: rectangles, their intersection, and the collision rule.
//! - [`fixed`]: distances covered in a time step, square roots, unit vectors.
//! - [`arena`]: the bounds that keep every coordinate within machine range.
//! - [`player`], [`block`], [`ball`]: the entities.
//! - [`grid`]: the blocks a round starts with.
//! - [`pass`]: the collision pass of a frame.
//! - [`game`]: the round controller and its state machine.
//! - [`host`], [`hud`]: what the host supplies and what it is asked to draw.

pub mod arena;
pub mod ball;
pub mod block;
pub mod fixed;
pub mod game;
pub mod geometry;
pub mod grid;
pub mod host;
pub mod hud;
pub mod pass;
pub mod player;
mod random;
