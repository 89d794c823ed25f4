//! What the host is asked to draw: the entities as filled rectangles, and
//! the line of text that goes with the phase of the game.

use crate::game::{Game, GameState};
use crate::geometry::Vec2;
use crate::host::{Color, Screen, Sprite};
use vstd::prelude::*;

verus! {

/// The text that goes with the phase of the game.
#[derive(Clone, Copy, Debug, PartialEq, Eq, Structural)]
pub enum Caption {
    /// The invitation to press the start key, as a title.
    PressStart,
    /// The score and the lives left, at the top of the screen.
    Status { score: u32, lives: u32 },
    /// The news that the round is won, with the score, as a title.
    Won { score: u32 },
    /// The news that the round is lost, as a title.
    Lost,
}

/// Where a title of the given width and height starts so that it sits in
/// the middle of the screen: half the screen less half the text, each half
/// rounded down.
pub open spec fn title_origin(text_width: u32, text_height: u32, screen: Screen) -> Vec2 {
    Vec2 {
        x: (screen.width / 2 - text_width / 2) as i64,
        y: (screen.height / 2 - text_height / 2) as i64,
    }
}

/// Where to draw a title whose text measures `text_width` by `text_height`,
/// so that it sits in the middle of the screen.
pub fn draw_title_text(text_width: u32, text_height: u32, screen: Screen) -> (origin: Vec2)
    ensures
        origin == title_origin(text_width, text_height, screen),
{
    Vec2 {
        x: (screen.width / 2) as i64 - (text_width / 2) as i64,
        y: (screen.height / 2) as i64 - (text_height / 2) as i64,
    }
}

/// Distance from the top of the screen to the line on which the score and
/// the lives are written during play.
pub const STATUS_LINE: i64 = 40_000;

/// Distance from the left edge of the screen to the text of the lives.
pub const LIVES_INDENT: i64 = 30_000;

/// Where the score of the given width starts during play: centred
/// horizontally, on the status line.
pub open spec fn score_origin(text_width: u32, screen: Screen) -> Vec2 {
    Vec2 { x: (screen.width / 2 - text_width / 2) as i64, y: STATUS_LINE }
}

/// Where to draw the score during play, for a text `text_width` wide.
pub fn draw_score_text(text_width: u32, screen: Screen) -> (origin: Vec2)
    ensures
        origin == score_origin(text_width, screen),
{
    Vec2 { x: (screen.width / 2) as i64 - (text_width / 2) as i64, y: STATUS_LINE }
}

impl Game {
    /// The rectangles to fill, in drawing order: the paddle, the blocks,
    /// the balls.
    pub open spec fn sprites(&self) -> Seq<Sprite> {
        seq![Sprite { rect: self.player.rectangle, color: Color::Blue }] + Seq::new(
            self.blocks@.len(),
            |j: int| Sprite { rect: self.blocks@[j].rectangle, color: self.blocks@[j].color() },
        ) + Seq::new(
            self.balls@.len(),
            |i: int| Sprite { rect: self.balls@[i].square, color: Color::Black },
        )
    }

    /// The text that goes with the phase: the invitation in the menu, the
    /// score and the lives during play, the news after a round.
    pub open spec fn phase_caption(&self) -> Caption {
        match self.game_state {
            GameState::Menu => Caption::PressStart,
            GameState::Game => Caption::Status { score: self.score, lives: self.player_lives },
            GameState::Completed => Caption::Won { score: self.score },
            GameState::Lost => Caption::Lost,
        }
    }

    /// The rectangles to fill, in drawing order.
    pub fn draw(&self) -> (sprites: Vec<Sprite>)
        ensures
            sprites@ == self.sprites(),
    {
        let mut sprites: Vec<Sprite> = Vec::new();
        sprites.push(self.player.draw());
        let block_count: usize = self.blocks.len();
        let mut j: usize = 0;
        while j < block_count
            invariant
                0 <= j <= block_count,
                block_count == self.blocks@.len(),
                sprites@ == seq![Sprite { rect: self.player.rectangle, color: Color::Blue }]
                    + Seq::new(
                    j as nat,
                    |j: int|
                        Sprite { rect: self.blocks@[j].rectangle, color: self.blocks@[j].color() },
                ),
            decreases block_count - j,
        {
            sprites.push(self.blocks[j].draw());
            j = j + 1;
        }
        let ghost drawn = sprites@;
        let ball_count: usize = self.balls.len();
        let mut i: usize = 0;
        while i < ball_count
            invariant
                0 <= i <= ball_count,
                ball_count == self.balls@.len(),
                sprites@ == drawn + Seq::new(
                    i as nat,
                    |i: int| Sprite { rect: self.balls@[i].square, color: Color::Black },
                ),
            decreases ball_count - i,
        {
            sprites.push(self.balls[i].draw());
            i = i + 1;
        }
        sprites
    }

    /// The text to show.
    pub fn caption(&self) -> (caption: Caption)
        ensures
            caption == self.phase_caption(),
    {
        match self.game_state {
            GameState::Menu => Caption::PressStart,
            GameState::Game => Caption::Status { score: self.score, lives: self.player_lives },
            GameState::Completed => Caption::Won { score: self.score },
            GameState::Lost => Caption::Lost,
        }
    }
}

} // verus!
