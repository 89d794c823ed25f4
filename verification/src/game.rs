//! The round controller: the state of a game, the frame that advances it,
//! and the machine that leads from the menu through play to a won or lost
//! round and back.

use crate::ball::{Ball, BALL_SIZE};
use crate::block::{Block, BLOCK_LIVES};
use crate::fixed::quotient_toward_zero;
use crate::geometry::Vec2;
use crate::grid::{init_blocks, is_new_grid, lemma_new_grid_blocks};
use crate::host::{Input, Screen};
use crate::pass::{
    active_count, advance_balls, balls_turns, blocks_in_arena, blocks_lives_in_range,
    lemma_turns_wear, spawns_within_reach, Tally, BLOCK_SCORE,
};
use crate::player::Player;
use vstd::prelude::*;

verus! {

/// Lives that a round starts with.
pub const STARTING_LIVES: u32 = 3;

/// How far above the top of the paddle a ball reappears after a life is
/// lost.
pub const RESPAWN_RISE: i64 = 50_000;

/// The test that a ball passes while it has not fallen off the screen: its
/// top edge does not lie below the bottom of the screen. A ball whose top
/// edge is exactly at the bottom passes.
pub open spec fn not_fallen(screen: Screen) -> spec_fn(Ball) -> bool {
    |ball: Ball| ball.square.y <= screen.height
}

/// The test that a block passes while it still stands.
pub open spec fn still_active() -> spec_fn(Block) -> bool {
    |block: Block| block.is_active()
}

/// `launched` holds one new ball for each place of `spawns`, in order.
pub open spec fn freshly_launched(launched: Seq<Ball>, spawns: Seq<Vec2>) -> bool {
    &&& launched.len() == spawns.len()
    &&& forall|k: int| 0 <= k < spawns.len() ==> (#[trigger] launched[k]).is_fresh_at(spawns[k])
}

/// Every ball is settled.
pub open spec fn balls_settled(balls: Seq<Ball>) -> bool {
    forall|i: int| 0 <= i < balls.len() ==> (#[trigger] balls[i]).settled()
}

/// Every ball is in flight.
pub open spec fn balls_in_flight(balls: Seq<Ball>) -> bool {
    forall|i: int| 0 <= i < balls.len() ==> (#[trigger] balls[i]).in_flight()
}

/// The middle of the screen.
pub open spec fn screen_centre(screen: Screen) -> Vec2 {
    Vec2 { x: (screen.width / 2) as i64, y: (screen.height / 2) as i64 }
}

/// Where a ball reappears after a life is lost: centred over the paddle,
/// `RESPAWN_RISE` above its top.
pub open spec fn respawn_point(player: Player) -> Vec2 {
    Vec2 {
        x: (player.rectangle.x + quotient_toward_zero(player.rectangle.w as int, 2) - BALL_SIZE
            / 2) as i64,
        y: (player.rectangle.y - RESPAWN_RISE) as i64,
    }
}

/// Appends one new ball for each place of `spawns`, each launched with a
/// heading of its own drawn at random.
pub fn launch_balls(balls: &mut Vec<Ball>, spawns: &Vec<Vec2>)
    ensures
        final(balls)@.len() == old(balls)@.len() + spawns@.len(),
        final(balls)@.subrange(0, old(balls)@.len() as int) == old(balls)@,
        freshly_launched(
            final(balls)@.subrange(old(balls)@.len() as int, final(balls)@.len() as int),
            spawns@,
        ),
        spawns_within_reach(spawns@) && balls_in_flight(old(balls)@) ==> balls_in_flight(
            final(balls)@,
        ),
{
    let first: usize = balls.len();
    let count: usize = spawns.len();
    let mut k: usize = 0;
    while k < count
        invariant
            0 <= k <= count,
            count == spawns@.len(),
            first == old(balls)@.len(),
            balls@.len() == first + k,
            balls@.subrange(0, first as int) == old(balls)@,
            forall|n: int| 0 <= n < k ==> (#[trigger] balls@[first + n]).is_fresh_at(spawns@[n]),
            spawns_within_reach(spawns@) && balls_in_flight(old(balls)@) ==> balls_in_flight(
                balls@,
            ),
        decreases count - k,
    {
        let ball = Ball::new(spawns[k]);
        proof {
            if spawns_within_reach(spawns@) {
                let spawn = spawns@[k as int];
                ball.lemma_fresh_settled(spawn);
            }
        }
        balls.push(ball);
        k = k + 1;
    }
    assert forall|n: int| 0 <= n < spawns@.len() implies (#[trigger] balls@.subrange(
        first as int,
        balls@.len() as int,
    )[n]).is_fresh_at(spawns@[n]) by {
        assert(balls@.subrange(first as int, balls@.len() as int)[n] == balls@[first + n]);
    }
}

/// Removes the balls whose top edge lies below the bottom of the screen,
/// keeps the others in order, and returns how many it removed. A ball whose
/// top edge is exactly at the bottom stays.
pub fn remove_fallen(balls: &mut Vec<Ball>, screen: Screen) -> (removed: usize)
    ensures
        final(balls)@ == old(balls)@.filter(not_fallen(screen)),
        removed == old(balls)@.len() - final(balls)@.len(),
        balls_in_flight(old(balls)@) ==> balls_settled(final(balls)@),
{
    let mut kept: Vec<Ball> = Vec::new();
    let count: usize = balls.len();
    let mut i: usize = 0;
    while i < count
        invariant
            0 <= i <= count,
            count == balls@.len(),
            balls@ == old(balls)@,
            kept@ == balls@.take(i as int).filter(not_fallen(screen)),
            kept@.len() <= i,
            balls_in_flight(balls@) ==> balls_settled(kept@),
        decreases count - i,
    {
        let ball: Ball = balls[i];
        proof {
            reveal(Seq::filter);
            assert(balls@.take(i + 1).drop_last() == balls@.take(i as int));
        }
        if ball.square.y <= screen.height as i64 {
            kept.push(ball);
        }
        i = i + 1;
    }
    assert(balls@.take(count as int) == balls@);
    let removed: usize = count - kept.len();
    *balls = kept;
    removed
}

/// Removes the blocks that no longer stand and keeps the others in order.
pub fn remove_destroyed(blocks: &mut Vec<Block>)
    ensures
        final(blocks)@ == old(blocks)@.filter(still_active()),
        final(blocks)@.len() == active_count(old(blocks)@),
        active_count(final(blocks)@) == active_count(old(blocks)@),
        forall|k: int|
            0 <= k < final(blocks)@.len() ==> (#[trigger] final(blocks)@[k]).is_active() && old(
                blocks,
            )@.contains(final(blocks)@[k]),
        blocks_in_arena(old(blocks)@) ==> blocks_in_arena(final(blocks)@),
{
    let mut kept: Vec<Block> = Vec::new();
    let count: usize = blocks.len();
    let mut j: usize = 0;
    while j < count
        invariant
            0 <= j <= count,
            count == blocks@.len(),
            blocks@ == old(blocks)@,
            kept@ == blocks@.take(j as int).filter(still_active()),
            kept@.len() == active_count(blocks@.take(j as int)),
            active_count(kept@) == kept@.len(),
            forall|k: int|
                0 <= k < kept@.len() ==> (#[trigger] kept@[k]).is_active() && blocks@.contains(
                    kept@[k],
                ),
            blocks_in_arena(blocks@) ==> blocks_in_arena(kept@),
        decreases count - j,
    {
        let block: Block = blocks[j];
        proof {
            reveal(Seq::filter);
            assert(blocks@.take(j + 1).drop_last() == blocks@.take(j as int));
        }
        if block.lives > 0 {
            let ghost before = kept@;
            kept.push(block);
            assert(kept@.drop_last() == before);
            assert(blocks@[j as int] == block);
        }
        j = j + 1;
    }
    assert(blocks@.take(count as int) == blocks@);
    *blocks = kept;
}

/// The phase of the game.
#[derive(Clone, Copy, Debug, PartialEq, Eq, Structural)]
pub enum GameState {
    /// Waiting for the start signal.
    Menu,
    /// A round is being played.
    Game,
    /// The round was won: no block is left.
    Completed,
    /// The round was lost: no life is left.
    Lost,
}

/// Everything a game consists of. The controller owns all of it.
pub struct Game {
    pub game_state: GameState,
    pub score: u32,
    pub player_lives: u32,
    pub player: Player,
    pub blocks: Vec<Block>,
    pub balls: Vec<Ball>,
}

/// A game as a mathematical value.
#[verifier::ext_equal]
pub struct GameView {
    pub game_state: GameState,
    pub score: int,
    pub player_lives: int,
    pub player: Player,
    pub blocks: Seq<Block>,
    pub balls: Seq<Ball>,
}

impl View for Game {
    type V = GameView;

    open spec fn view(&self) -> GameView {
        GameView {
            game_state: self.game_state,
            score: self.score as int,
            player_lives: self.player_lives as int,
            player: self.player,
            blocks: self.blocks@,
            balls: self.balls@,
        }
    }
}

/// The ball that a round starts with is one new ball in the middle of the
/// screen.
pub open spec fn is_opening_ball(balls: Seq<Ball>, screen: Screen) -> bool {
    balls.len() == 1 && balls[0].is_fresh_at(screen_centre(screen))
}

impl GameView {
    /// The game is about to begin a round, in the given phase: nothing
    /// scored, all lives left, the paddle centred, a new grid, one new ball
    /// in the middle of the screen.
    pub open spec fn is_new_round(self, game_state: GameState, screen: Screen) -> bool {
        &&& self.game_state == game_state
        &&& self.score == 0
        &&& self.player_lives == STARTING_LIVES
        &&& self.player == Player::at_start(screen)
        &&& is_new_grid(self.blocks, screen)
        &&& is_opening_ball(self.balls, screen)
    }

    /// The places at which a frame of play launches new balls.
    pub open spec fn frame_spawns(self, input: Input, dt: u32, screen: Screen) -> Seq<Vec2> {
        self.frame_turns(input, dt, screen).1.spawns
    }

    /// The paddle after a frame of play.
    pub open spec fn frame_player(self, input: Input, dt: u32, screen: Screen) -> Player {
        self.player.moved(dt, input.left, input.right, screen)
    }

    /// The balls and the tally once the paddle has moved and every ball has
    /// taken its turn.
    pub open spec fn frame_turns(self, input: Input, dt: u32, screen: Screen) -> (
        Seq<Ball>,
        Tally,
    ) {
        balls_turns(
            self.balls,
            Tally { blocks: self.blocks, score: self.score, spawns: Seq::<Vec2>::empty() },
            self.balls.len(),
            self.frame_player(input, dt, screen),
            dt,
            screen,
        )
    }

    /// The game after a frame of play in which the balls `launched` were
    /// launched at the frame's spawn places and `reserve` stood by to
    /// replace a lost ball.
    ///
    /// The paddle moves and the balls take their turns. The launched balls
    /// join the others, and the balls whose top edge lies below the bottom
    /// of the screen are removed. If that removed the last ball, a life is
    /// lost and `reserve` comes into play. The blocks that no longer stand are
    /// removed. With no block left the round is won; otherwise, with the
    /// last life lost, it is lost; otherwise the phase stays.
    pub open spec fn frame_end(
        self,
        launched: Seq<Ball>,
        reserve: Ball,
        input: Input,
        dt: u32,
        screen: Screen,
    ) -> GameView {
        let turns = self.frame_turns(input, dt, screen);
        let all = turns.0 + launched;
        let kept = all.filter(not_fallen(screen));
        let life_lost = kept.len() < all.len() && kept.len() == 0;
        let lives = if life_lost && self.player_lives > 0 {
            self.player_lives - 1
        } else {
            self.player_lives
        };
        let blocks = turns.1.blocks.filter(still_active());
        GameView {
            game_state: if blocks.len() == 0 {
                GameState::Completed
            } else if life_lost && lives == 0 {
                GameState::Lost
            } else {
                self.game_state
            },
            score: turns.1.score,
            player_lives: lives,
            player: self.frame_player(input, dt, screen),
            blocks,
            balls: if life_lost {
                seq![reserve]
            } else {
                kept
            },
        }
    }

    /// `after` is a state in which a frame of play can end: the result of
    /// the frame for some new balls launched at the spawn places and some
    /// new ball standing by over the paddle.
    pub open spec fn plays_to(self, after: GameView, input: Input, dt: u32, screen: Screen) -> bool {
        exists|launched: Seq<Ball>, reserve: Ball|
            {
                &&& freshly_launched(launched, self.frame_spawns(input, dt, screen))
                &&& reserve.is_fresh_at(respawn_point(self.frame_player(input, dt, screen)))
                &&& after == #[trigger] self.frame_end(launched, reserve, input, dt, screen)
            }
    }

    /// `after` is a state that one frame can lead to. In the menu the start
    /// signal begins play and nothing else happens. During play the frame
    /// is played. After a round is won or lost the start signal sets up a
    /// new round and leads to the menu, and nothing else happens.
    pub open spec fn steps_to(self, after: GameView, input: Input, dt: u32, screen: Screen) -> bool {
        match self.game_state {
            GameState::Menu => after == (GameView {
                game_state: if input.start {
                    GameState::Game
                } else {
                    GameState::Menu
                },
                ..self
            }),
            GameState::Game => self.plays_to(after, input, dt, screen),
            GameState::Completed | GameState::Lost => if input.start {
                after.is_new_round(GameState::Menu, screen)
            } else {
                after == self
            },
        }
    }
}

/// Sets up a new round: a centred paddle, no score, all lives, a new grid
/// in place of the blocks, and one new ball in the middle of the screen in
/// place of the balls.
pub fn reset_game(
    score: &mut u32,
    player_lives: &mut u32,
    blocks: &mut Vec<Block>,
    balls: &mut Vec<Ball>,
    player: &mut Player,
    screen: Screen,
)
    ensures
        *final(score) == 0,
        *final(player_lives) == STARTING_LIVES,
        *final(player) == Player::at_start(screen),
        is_new_grid(final(blocks)@, screen),
        is_opening_ball(final(balls)@, screen),
        final(player).rectangle.rests_in_arena(),
        blocks_in_arena(final(blocks)@),
        blocks_lives_in_range(final(blocks)@),
        balls_settled(final(balls)@),
        active_count(final(blocks)@) <= final(blocks)@.len() == crate::grid::GRID_BLOCKS,
{
    *player = Player::new(screen);
    *score = 0;
    *player_lives = STARTING_LIVES;
    balls.clear();
    blocks.clear();
    init_blocks(blocks, screen);
    let centre = Vec2 { x: (screen.width / 2) as i64, y: (screen.height / 2) as i64 };
    let ball = Ball::new(centre);
    balls.push(ball);
    proof {
        assert(blocks@.subrange(0, blocks@.len() as int) == blocks@);
        lemma_new_grid_blocks(blocks@, screen);
        ball.lemma_fresh_settled(centre);
        lemma_active_count_bound(blocks@);
    }
}

/// No more blocks stand than there are.
pub proof fn lemma_active_count_bound(blocks: Seq<Block>)
    ensures
        active_count(blocks) <= blocks.len(),
    decreases blocks.len(),
{
    if blocks.len() > 0 {
        lemma_active_count_bound(blocks.drop_last());
    }
}

/// The blocks that are kept at the end of a frame are as many as still
/// stand.
pub proof fn lemma_kept_blocks_count(blocks: Seq<Block>)
    ensures
        blocks.filter(still_active()).len() == active_count(blocks),
    decreases blocks.len(),
{
    reveal(Seq::filter);
    if blocks.len() > 0 {
        lemma_kept_blocks_count(blocks.drop_last());
    }
}

/// A frame of play after which no block stands ends with the round won:
/// destroying the last block wins, whatever else happens in that frame.
pub proof fn lemma_last_block_wins(
    before: GameView,
    after: GameView,
    input: Input,
    dt: u32,
    screen: Screen,
)
    requires
        before.plays_to(after, input, dt, screen),
        active_count(before.frame_turns(input, dt, screen).1.blocks) == 0,
    ensures
        after.game_state == GameState::Completed,
        after.blocks.len() == 0,
{
    lemma_kept_blocks_count(before.frame_turns(input, dt, screen).1.blocks);
}

/// A frame of play that takes the last life while a block still stands
/// ends with the round lost, and with one new ball over the paddle.
pub proof fn lemma_last_life_loses(
    before: GameView,
    after: GameView,
    input: Input,
    dt: u32,
    screen: Screen,
)
    requires
        before.plays_to(after, input, dt, screen),
        after.player_lives < before.player_lives,
        after.player_lives == 0,
        after.blocks.len() > 0,
    ensures
        after.game_state == GameState::Lost,
        after.balls.len() == 1,
        after.balls[0].is_fresh_at(respawn_point(after.player)),
{
}

/// A frame of play changes the phase only to won or lost: to won exactly
/// when it leaves no block, and to lost only when it leaves no life.
pub proof fn lemma_play_ends_the_round(
    before: GameView,
    after: GameView,
    input: Input,
    dt: u32,
    screen: Screen,
)
    requires
        before.plays_to(after, input, dt, screen),
        before.game_state == GameState::Game,
    ensures
        after.game_state == GameState::Completed <==> after.blocks.len() == 0,
        after.game_state == GameState::Lost ==> after.player_lives == 0,
        after.game_state == GameState::Game || after.game_state == GameState::Completed
            || after.game_state == GameState::Lost,
        after.player_lives == before.player_lives || after.player_lives == before.player_lives
            - 1,
{
}

/// Every ball has its top edge below the bottom of the screen.
pub open spec fn all_fallen(balls: Seq<Ball>, screen: Screen) -> bool {
    forall|i: int| 0 <= i < balls.len() ==> (#[trigger] balls[i]).square.y > screen.height
}

/// No ball is kept exactly when every ball has fallen.
pub proof fn lemma_none_kept_when_all_fell(balls: Seq<Ball>, screen: Screen)
    ensures
        balls.filter(not_fallen(screen)).len() == 0 <==> all_fallen(balls, screen),
        balls.filter(not_fallen(screen)).len() <= balls.len(),
{
    let kept = balls.filter(not_fallen(screen));
    balls.lemma_filter_len(not_fallen(screen));
    if kept.len() > 0 {
        balls.lemma_filter_pred(not_fallen(screen), 0);
        balls.lemma_filter_contains_rev(not_fallen(screen), kept[0]);
    }
    if !all_fallen(balls, screen) {
        let i = choose|i: int| 0 <= i < balls.len() && !(balls[i].square.y > screen.height);
        balls.lemma_filter_contains(not_fallen(screen), i);
    }
}

/// A frame of play takes a life exactly when it had balls and every one of
/// them, the launched ones included, ended with its top edge below the
/// bottom of the screen; a ball whose top edge is exactly at the bottom is
/// kept and costs nothing. It takes one life, as long as one is left. While
/// a block still stands, the round is lost exactly when a life was called
/// for and none is left after.
pub proof fn lemma_lives_rule(
    before: GameView,
    launched: Seq<Ball>,
    reserve: Ball,
    input: Input,
    dt: u32,
    screen: Screen,
)
    requires
        before.game_state == GameState::Game,
    ensures
        ({
            let all = before.frame_turns(input, dt, screen).0 + launched;
            let after = before.frame_end(launched, reserve, input, dt, screen);
            let life_called_for = all.len() > 0 && all_fallen(all, screen);
            &&& after.player_lives == if life_called_for && before.player_lives > 0 {
                before.player_lives - 1
            } else {
                before.player_lives
            }
            &&& after.balls == if life_called_for {
                seq![reserve]
            } else {
                all.filter(not_fallen(screen))
            }
            &&& after.blocks.len() > 0 ==> (after.game_state == GameState::Lost <==> life_called_for
                && after.player_lives == 0)
            &&& after.blocks.len() > 0 && !(life_called_for && after.player_lives == 0)
                ==> after.game_state == GameState::Game
        }),
{
    let all = before.frame_turns(input, dt, screen).0 + launched;
    lemma_none_kept_when_all_fell(all, screen);
}

/// A frame of play leaves every block that it keeps with at least one
/// life, and with no more than a new block has if no block had more
/// before. The score grows by ten for every block that the frame removes.
pub proof fn lemma_play_keeps_block_lives(
    before: GameView,
    after: GameView,
    input: Input,
    dt: u32,
    screen: Screen,
)
    requires
        before.plays_to(after, input, dt, screen),
        forall|j: int| 0 <= j < before.blocks.len() ==> (#[trigger] before.blocks[j]).lives
            <= BLOCK_LIVES,
    ensures
        blocks_lives_in_range(after.blocks),
        after.blocks.len() <= before.blocks.len(),
        after.score >= before.score,
        after.score + BLOCK_SCORE * after.blocks.len() == before.score + BLOCK_SCORE
            * active_count(before.blocks),
{
    let start = Tally {
        blocks: before.blocks,
        score: before.score,
        spawns: Seq::<Vec2>::empty(),
    };
    let player = before.frame_player(input, dt, screen);
    lemma_turns_wear(before.balls, start, before.balls.len(), player, dt, screen);
    let worn = before.frame_turns(input, dt, screen).1.blocks;
    lemma_kept_blocks_count(worn);
    lemma_active_count_bound(worn);
    worn.lemma_filter_len(still_active());
    assert forall|k: int| 0 <= k < after.blocks.len() implies (
    #[trigger] after.blocks[k]).lives_in_range() by {
        worn.lemma_filter_pred(still_active(), k);
        worn.lemma_filter_contains_rev(still_active(), after.blocks[k]);
        let j = choose|j: int| 0 <= j < worn.len() && worn[j] == after.blocks[k];
        assert(worn[j].lives <= before.blocks[j].lives);
    }
}

/// The start signal after a round, won or lost, leads to the menu with
/// everything set up anew: no score, all lives, the paddle centred, a new
/// grid of thirty-six blocks and exactly one new ball in the middle of the
/// screen.
pub proof fn lemma_start_resets(
    before: GameView,
    after: GameView,
    input: Input,
    dt: u32,
    screen: Screen,
)
    requires
        before.steps_to(after, input, dt, screen),
        before.game_state == GameState::Completed || before.game_state == GameState::Lost,
        input.start,
    ensures
        after.game_state == GameState::Menu,
        after.score == 0,
        after.player_lives == STARTING_LIVES,
        after.player == Player::at_start(screen),
        is_new_grid(after.blocks, screen),
        after.blocks.len() == crate::grid::GRID_BLOCKS,
        after.balls.len() == 1,
        after.balls[0].is_fresh_at(screen_centre(screen)),
{
}

/// The phases follow one another in a fixed order: the menu leads to play
/// on the start signal, play leads to won or lost, and won and lost lead
/// back to the menu on the start signal. Without the start signal the menu
/// and a finished round stay as they are.
pub proof fn lemma_phases_in_order(
    before: GameView,
    after: GameView,
    input: Input,
    dt: u32,
    screen: Screen,
)
    requires
        before.steps_to(after, input, dt, screen),
    ensures
        before.game_state == GameState::Menu ==> after.game_state == if input.start {
            GameState::Game
        } else {
            GameState::Menu
        },
        before.game_state == GameState::Game ==> after.game_state == GameState::Game
            || after.game_state == GameState::Completed || after.game_state == GameState::Lost,
        before.game_state == GameState::Completed ==> after.game_state == if input.start {
            GameState::Menu
        } else {
            GameState::Completed
        },
        before.game_state == GameState::Lost ==> after.game_state == if input.start {
            GameState::Menu
        } else {
            GameState::Lost
        },
        before.game_state != GameState::Game && !input.start ==> after == before,
{
}

impl Game {
    /// The game can be advanced: the paddle and the blocks rest within the
    /// arena, every block has at least one life and no more than a new
    /// block, every ball is settled, and the score leaves room for the
    /// points of every block.
    pub open spec fn wf(&self) -> bool {
        &&& self.player.rectangle.rests_in_arena()
        &&& blocks_in_arena(self.blocks@)
        &&& blocks_lives_in_range(self.blocks@)
        &&& balls_settled(self.balls@)
        &&& self.score + BLOCK_SCORE * active_count(self.blocks@) <= u32::MAX
    }

    /// Whether the game can be advanced.
    pub fn is_wf(&self) -> (yes: bool)
        ensures
            yes == self.wf(),
    {
        if !self.player.rectangle.is_resting_in_arena() {
            return false;
        }
        let ball_count: usize = self.balls.len();
        let mut i: usize = 0;
        while i < ball_count
            invariant
                0 <= i <= ball_count,
                ball_count == self.balls@.len(),
                forall|k: int| 0 <= k < i ==> (#[trigger] self.balls@[k]).settled(),
            decreases ball_count - i,
        {
            if !self.balls[i].is_settled() {
                return false;
            }
            i = i + 1;
        }
        let block_count: usize = self.blocks.len();
        let mut standing: u64 = 0;
        let mut j: usize = 0;
        while j < block_count
            invariant
                0 <= j <= block_count,
                block_count == self.blocks@.len(),
                forall|k: int| 0 <= k < j ==> (#[trigger] self.blocks@[k]).rectangle.rests_in_arena(),
                forall|k: int| 0 <= k < j ==> (#[trigger] self.blocks@[k]).lives_in_range(),
                standing == active_count(self.blocks@.take(j as int)),
                standing <= j,
            decreases block_count - j,
        {
            let block: Block = self.blocks[j];
            if !block.rectangle.is_resting_in_arena() {
                return false;
            }
            if block.lives < 1 || block.lives > BLOCK_LIVES {
                return false;
            }
            proof {
                assert(self.blocks@.take(j + 1).drop_last() == self.blocks@.take(j as int));
            }
            standing = standing + 1;
            j = j + 1;
        }
        assert(self.blocks@.take(block_count as int) == self.blocks@);
        if standing > 0xffff_ffff {
            return false;
        }
        assert(BLOCK_SCORE * standing <= 10 * 0xffff_ffff) by (nonlinear_arith)
            requires
                BLOCK_SCORE == 10,
                standing <= 0xffff_ffff,
        ;
        self.score as u64 + BLOCK_SCORE as u64 * standing <= 0xffff_ffff
    }

    /// A game in the menu, set up for its first round.
    pub fn new(screen: Screen) -> (game: Game)
        ensures
            game@.is_new_round(GameState::Menu, screen),
            game.wf(),
    {
        let mut game = Game {
            game_state: GameState::Menu,
            score: 0,
            player_lives: STARTING_LIVES,
            player: Player::new(screen),
            blocks: Vec::new(),
            balls: Vec::new(),
        };
        reset_game(
            &mut game.score,
            &mut game.player_lives,
            &mut game.blocks,
            &mut game.balls,
            &mut game.player,
            screen,
        );
        game
    }

    /// Plays one frame: moves the paddle, gives every ball its turn,
    /// launches the balls that destroyed special blocks call for, removes
    /// the balls that fell off the screen, takes a life and brings a ball
    /// back if none is left, removes the destroyed blocks, and decides
    /// whether the round is won or lost. New balls join only after every
    /// ball has had its turn. The start signal does nothing during play.
    pub fn play(&mut self, input: Input, dt: u32, screen: Screen)
        requires
            old(self).wf(),
        ensures
            old(self)@.plays_to(final(self)@, input, dt, screen),
            final(self).wf(),
    {
        self.player.update(dt, input.left, input.right, screen);
        let spawns = advance_balls(
            &mut self.balls,
            &mut self.blocks,
            &mut self.score,
            &self.player,
            dt,
            screen,
        );
        let ghost turned = self.balls@;
        launch_balls(&mut self.balls, &spawns);
        let ghost all = self.balls@;
        let ghost launched = all.subrange(turned.len() as int, all.len() as int);
        assert(all == turned + launched);
        let ghost mut reserve = Ball::launched(respawn_point(self.player), 0);
        let removed: usize = remove_fallen(&mut self.balls, screen);
        if removed > 0 && self.balls.len() == 0 {
            if self.player_lives > 0 {
                self.player_lives = self.player_lives - 1;
            }
            let place = Vec2 {
                x: self.player.rectangle.x + self.player.rectangle.w / 2 - BALL_SIZE / 2,
                y: self.player.rectangle.y - RESPAWN_RISE,
            };
            let ball = Ball::new(place);
            proof {
                ball.lemma_fresh_settled(place);
                reserve = ball;
            }
            self.balls.push(ball);
            if self.player_lives == 0 {
                self.game_state = GameState::Lost;
            }
        }
        remove_destroyed(&mut self.blocks);
        if self.blocks.len() == 0 {
            self.game_state = GameState::Completed;
        }
        proof {
            assert(self@ == old(self)@.frame_end(launched, reserve, input, dt, screen));
        }
    }

    /// Advances the game by one frame.
    pub fn update(&mut self, input: Input, dt: u32, screen: Screen)
        requires
            old(self).wf(),
        ensures
            old(self)@.steps_to(final(self)@, input, dt, screen),
            final(self).wf(),
    {
        match self.game_state {
            GameState::Menu => {
                if input.start {
                    self.game_state = GameState::Game;
                }
            },
            GameState::Game => {
                self.play(input, dt, screen);
            },
            GameState::Completed | GameState::Lost => {
                if input.start {
                    self.game_state = GameState::Menu;
                    reset_game(
                        &mut self.score,
                        &mut self.player_lives,
                        &mut self.blocks,
                        &mut self.balls,
                        &mut self.player,
                        screen,
                    );
                }
            },
        }
    }
}

} // verus!
