//! The collision pass of a frame: every ball in turn flies, meets the
//! paddle, and meets every block that still stands.

use crate::ball::Ball;
use crate::block::{Block, BlockType};
use crate::geometry::{bounced, pushed_out, resolve_collision, Rect, Vec2};
use crate::host::Screen;
use crate::player::Player;
use vstd::prelude::*;

verus! {

/// Points awarded for a destroyed block.
pub const BLOCK_SCORE: u32 = 10;

/// What the balls share during the pass: the blocks as worn down so far,
/// the score, and the places where new balls are to be launched once the
/// pass is over.
#[verifier::ext_equal]
pub struct Tally {
    pub blocks: Seq<Block>,
    pub score: int,
    pub spawns: Seq<Vec2>,
}

/// The ball after it has been pushed out of `obstacle` and turned away from
/// it; the ball itself when the two do not overlap.
pub open spec fn deflected(ball: Ball, obstacle: Rect) -> Ball {
    Ball {
        square: pushed_out(ball.square, obstacle),
        velocity: bounced(ball.square, ball.velocity, obstacle),
    }
}

/// How many of the blocks still stand.
pub open spec fn active_count(blocks: Seq<Block>) -> nat
    decreases blocks.len(),
{
    if blocks.len() == 0 {
        0
    } else {
        active_count(blocks.drop_last()) + if blocks.last().is_active() {
            1nat
        } else {
            0nat
        }
    }
}

/// The ball meets block `j`. A block that no longer stands is passed
/// through. A standing block that the ball overlaps deflects the ball and
/// takes a hit; if that was its last, the score grows and, for a special
/// block, the place of the deflected ball is noted for a launch.
pub open spec fn ball_meets_block(ball: Ball, tally: Tally, j: int) -> (Ball, Tally) {
    let block = tally.blocks[j];
    if block.is_active() && ball.square.overlaps(block.rectangle) {
        let turned = deflected(ball, block.rectangle);
        let struck = block.struck();
        (
            turned,
            Tally {
                blocks: tally.blocks.update(j, struck),
                score: if struck.is_active() {
                    tally.score
                } else {
                    tally.score + BLOCK_SCORE
                },
                spawns: if !struck.is_active() && struck.block_type == BlockType::SpawnBallOnDeath {
                    tally.spawns.push(Vec2 { x: turned.square.x, y: turned.square.y })
                } else {
                    tally.spawns
                },
            },
        )
    } else {
        (ball, tally)
    }
}

/// The ball has met the first `n` blocks, in order.
pub open spec fn ball_meets_blocks(ball: Ball, tally: Tally, n: nat) -> (Ball, Tally)
    decreases n,
{
    if n == 0 {
        (ball, tally)
    } else {
        let before = ball_meets_blocks(ball, tally, (n - 1) as nat);
        ball_meets_block(before.0, before.1, n - 1)
    }
}

/// The turn of one ball: it flies for `dt` microseconds, is deflected by
/// the paddle if it overlaps it, and then meets every block.
pub open spec fn ball_turn(ball: Ball, tally: Tally, player: Player, dt: u32, screen: Screen) -> (
    Ball,
    Tally,
) {
    ball_meets_blocks(
        deflected(ball.moved(dt, screen), player.rectangle),
        tally,
        tally.blocks.len(),
    )
}

/// The first `n` balls have taken their turn, in order.
pub open spec fn balls_turns(
    balls: Seq<Ball>,
    tally: Tally,
    n: nat,
    player: Player,
    dt: u32,
    screen: Screen,
) -> (Seq<Ball>, Tally)
    decreases n,
{
    if n == 0 {
        (balls, tally)
    } else {
        let before = balls_turns(balls, tally, (n - 1) as nat, player, dt, screen);
        let turn = ball_turn(before.0[n - 1], before.1, player, dt, screen);
        (before.0.update(n - 1, turn.0), turn.1)
    }
}

/// Every block rests within the arena.
pub open spec fn blocks_in_arena(blocks: Seq<Block>) -> bool {
    forall|j: int| 0 <= j < blocks.len() ==> (#[trigger] blocks[j]).rectangle.rests_in_arena()
}

/// Every block has the lives of a block that is held between frames.
pub open spec fn blocks_lives_in_range(blocks: Seq<Block>) -> bool {
    forall|j: int| 0 <= j < blocks.len() ==> (#[trigger] blocks[j]).lives_in_range()
}

/// Every place lies within `REACH` of the origin.
pub open spec fn spawns_within_reach(spawns: Seq<Vec2>) -> bool {
    forall|k: int|
        0 <= k < spawns.len() ==> (Rect {
            x: (#[trigger] spawns[k]).x,
            y: spawns[k].y,
            w: 0,
            h: 0,
        }).within_reach()
}

/// The second sequence holds the blocks of the first, each in its place and
/// of its kind, with as many lives or fewer, and with no fewer than none
/// where there were any.
pub open spec fn worn_down(before: Seq<Block>, after: Seq<Block>) -> bool {
    &&& after.len() == before.len()
    &&& forall|j: int|
        0 <= j < before.len() ==> {
            &&& (#[trigger] after[j]).rectangle == before[j].rectangle
            &&& after[j].block_type == before[j].block_type
            &&& after[j].lives <= before[j].lives
            &&& before[j].lives >= 0 ==> after[j].lives >= 0
        }
}

/// Replacing one block changes the count of standing blocks by what the
/// old and the new block contribute.
pub proof fn lemma_active_count_update(blocks: Seq<Block>, j: int, block: Block)
    requires
        0 <= j < blocks.len(),
    ensures
        active_count(blocks.update(j, block)) + (if blocks[j].is_active() {
            1int
        } else {
            0int
        }) == active_count(blocks) + (if block.is_active() {
            1int
        } else {
            0int
        }),
        blocks[j].is_active() ==> active_count(blocks) >= 1,
    decreases blocks.len(),
{
    if j == blocks.len() - 1 {
        assert(blocks.update(j, block).drop_last() == blocks.drop_last());
    } else {
        assert(blocks.update(j, block).drop_last() == blocks.drop_last().update(j, block));
        lemma_active_count_update(blocks.drop_last(), j, block);
    }
}

/// Meeting blocks only wears them down: each block keeps its place and its
/// kind and loses lives or keeps them, never below none. The score never
/// falls, and it grows by ten for every block that stops standing.
pub proof fn lemma_meets_blocks_wear(ball: Ball, tally: Tally, n: nat)
    requires
        n <= tally.blocks.len(),
    ensures
        worn_down(tally.blocks, ball_meets_blocks(ball, tally, n).1.blocks),
        ball_meets_blocks(ball, tally, n).1.score >= tally.score,
        ball_meets_blocks(ball, tally, n).1.score + BLOCK_SCORE * active_count(
            ball_meets_blocks(ball, tally, n).1.blocks,
        ) == tally.score + BLOCK_SCORE * active_count(tally.blocks),
    decreases n,
{
    if n > 0 {
        lemma_meets_blocks_wear(ball, tally, (n - 1) as nat);
        let before = ball_meets_blocks(ball, tally, (n - 1) as nat);
        lemma_active_count_update(before.1.blocks, n - 1, before.1.blocks[n - 1].struck());
    }
}

/// The turns of the balls only wear the blocks down, in the same sense, and
/// leave as many balls as there were.
pub proof fn lemma_turns_wear(
    balls: Seq<Ball>,
    tally: Tally,
    n: nat,
    player: Player,
    dt: u32,
    screen: Screen,
)
    requires
        n <= balls.len(),
    ensures
        balls_turns(balls, tally, n, player, dt, screen).0.len() == balls.len(),
        worn_down(tally.blocks, balls_turns(balls, tally, n, player, dt, screen).1.blocks),
        balls_turns(balls, tally, n, player, dt, screen).1.score >= tally.score,
        balls_turns(balls, tally, n, player, dt, screen).1.score + BLOCK_SCORE * active_count(
            balls_turns(balls, tally, n, player, dt, screen).1.blocks,
        ) == tally.score + BLOCK_SCORE * active_count(tally.blocks),
    decreases n,
{
    if n > 0 {
        lemma_turns_wear(balls, tally, (n - 1) as nat, player, dt, screen);
        let before = balls_turns(balls, tally, (n - 1) as nat, player, dt, screen);
        lemma_meets_blocks_wear(
            deflected(before.0[n - 1].moved(dt, screen), player.rectangle),
            before.1,
            before.1.blocks.len(),
        );
    }
}

/// Lets the ball meet every block in order. A standing block that the ball
/// overlaps deflects it and loses a life; a block that loses its last life
/// adds to the score and, if special, notes the ball's place in `spawns`.
/// What the score gains is ten times the number of blocks that fell.
pub fn collide_with_blocks(
    ball: &mut Ball,
    blocks: &mut Vec<Block>,
    score: &mut u32,
    spawns: &mut Vec<Vec2>,
)
    requires
        old(ball).square.wf(),
        old(ball).square.sized_for_arena(),
        old(ball).velocity.wf(),
        blocks_in_arena(old(blocks)@),
        *old(score) + BLOCK_SCORE * active_count(old(blocks)@) <= u32::MAX,
    ensures
        ({
            let met = ball_meets_blocks(
                *old(ball),
                Tally {
                    blocks: old(blocks)@,
                    score: *old(score) as int,
                    spawns: old(spawns)@,
                },
                old(blocks)@.len(),
            );
            &&& *final(ball) == met.0
            &&& final(blocks)@ == met.1.blocks
            &&& *final(score) == met.1.score
            &&& final(spawns)@ == met.1.spawns
        }),
        old(ball).in_flight() ==> final(ball).in_flight(),
        old(ball).settled() ==> final(ball).settled(),
        worn_down(old(blocks)@, final(blocks)@),
        spawns_within_reach(old(spawns)@) ==> spawns_within_reach(final(spawns)@),
        *final(score) >= *old(score),
        *final(score) + BLOCK_SCORE * active_count(final(blocks)@) == *old(score) + BLOCK_SCORE
            * active_count(old(blocks)@),
{
    let ghost start = Tally {
        blocks: old(blocks)@,
        score: *old(score) as int,
        spawns: old(spawns)@,
    };
    let count: usize = blocks.len();
    let mut j: usize = 0;
    while j < count
        invariant
            0 <= j <= count,
            count == old(blocks)@.len(),
            start.blocks == old(blocks)@,
            start.score == *old(score),
            start.spawns == old(spawns)@,
            *ball == ball_meets_blocks(*old(ball), start, j as nat).0,
            blocks@ == ball_meets_blocks(*old(ball), start, j as nat).1.blocks,
            *score == ball_meets_blocks(*old(ball), start, j as nat).1.score,
            spawns@ == ball_meets_blocks(*old(ball), start, j as nat).1.spawns,
            ball.square.wf(),
            ball.square.sized_for_arena(),
            ball.velocity.wf(),
            old(ball).in_flight() ==> ball.in_flight(),
            old(ball).settled() ==> ball.settled(),
            worn_down(old(blocks)@, blocks@),
            blocks_in_arena(old(blocks)@),
            spawns_within_reach(old(spawns)@) ==> spawns_within_reach(spawns@),
            *score >= *old(score),
            *score + BLOCK_SCORE * active_count(blocks@) == *old(score) + BLOCK_SCORE
                * active_count(old(blocks)@),
            *old(score) + BLOCK_SCORE * active_count(old(blocks)@) <= u32::MAX,
        decreases count - j,
    {
        let mut block: Block = blocks[j];
        if block.lives > 0 {
            if resolve_collision(&mut ball.square, &mut ball.velocity, &block.rectangle) {
                proof {
                    lemma_active_count_update(blocks@, j as int, block.struck());
                }
                block.lives = block.lives - 1;
                if block.lives <= 0 {
                    *score = *score + BLOCK_SCORE;
                    if block.block_type == BlockType::SpawnBallOnDeath {
                        spawns.push(ball.square.point());
                    }
                }
                blocks.set(j, block);
            }
        }
        j = j + 1;
    }
}

/// Gives every ball its turn, in order: the ball flies for `dt`
/// microseconds, is deflected by the paddle if it overlaps it, and meets
/// every block. Returns the places where new balls are to be launched; the
/// balls themselves are not touched by that.
pub fn advance_balls(
    balls: &mut Vec<Ball>,
    blocks: &mut Vec<Block>,
    score: &mut u32,
    player: &Player,
    dt: u32,
    screen: Screen,
) -> (spawns: Vec<Vec2>)
    requires
        forall|i: int| 0 <= i < old(balls)@.len() ==> (#[trigger] old(balls)@[i]).can_fly(),
        blocks_in_arena(old(blocks)@),
        player.rectangle.rests_in_arena(),
        *old(score) + BLOCK_SCORE * active_count(old(blocks)@) <= u32::MAX,
    ensures
        ({
            let turns = balls_turns(
                old(balls)@,
                Tally {
                    blocks: old(blocks)@,
                    score: *old(score) as int,
                    spawns: Seq::<Vec2>::empty(),
                },
                old(balls)@.len(),
                *player,
                dt,
                screen,
            );
            &&& final(balls)@ == turns.0
            &&& final(blocks)@ == turns.1.blocks
            &&& *final(score) == turns.1.score
            &&& spawns@ == turns.1.spawns
        }),
        final(balls)@.len() == old(balls)@.len(),
        forall|i: int|
            0 <= i < final(balls)@.len() && old(balls)@[i].settled() ==> (
            #[trigger] final(balls)@[i]).in_flight(),
        worn_down(old(blocks)@, final(blocks)@),
        spawns_within_reach(spawns@),
        *final(score) >= *old(score),
        *final(score) + BLOCK_SCORE * active_count(final(blocks)@) == *old(score) + BLOCK_SCORE
            * active_count(old(blocks)@),
{
    let ghost start = Tally {
        blocks: old(blocks)@,
        score: *old(score) as int,
        spawns: Seq::<Vec2>::empty(),
    };
    let mut spawns: Vec<Vec2> = Vec::new();
    let count: usize = balls.len();
    let mut i: usize = 0;
    while i < count
        invariant
            0 <= i <= count,
            count == old(balls)@.len(),
            balls@.len() == count,
            start.blocks == old(blocks)@,
            start.score == *old(score),
            start.spawns == Seq::<Vec2>::empty(),
            balls@ == balls_turns(old(balls)@, start, i as nat, *player, dt, screen).0,
            blocks@ == balls_turns(old(balls)@, start, i as nat, *player, dt, screen).1.blocks,
            *score == balls_turns(old(balls)@, start, i as nat, *player, dt, screen).1.score,
            spawns@ == balls_turns(old(balls)@, start, i as nat, *player, dt, screen).1.spawns,
            forall|k: int|
                0 <= k < i && old(balls)@[k].settled() ==> (#[trigger] balls@[k]).in_flight(),
            forall|k: int| i <= k < count ==> (#[trigger] balls@[k]) == old(balls)@[k],
            forall|k: int| 0 <= k < count ==> (#[trigger] old(balls)@[k]).can_fly(),
            worn_down(old(blocks)@, blocks@),
            blocks_in_arena(old(blocks)@),
            player.rectangle.rests_in_arena(),
            spawns_within_reach(spawns@),
            *score >= *old(score),
            *score + BLOCK_SCORE * active_count(blocks@) == *old(score) + BLOCK_SCORE
                * active_count(old(blocks)@),
            *old(score) + BLOCK_SCORE * active_count(old(blocks)@) <= u32::MAX,
        decreases count - i,
    {
        let mut ball: Ball = balls[i];
        ball.update(dt, screen);
        resolve_collision(&mut ball.square, &mut ball.velocity, &player.rectangle);
        collide_with_blocks(&mut ball, blocks, score, &mut spawns);
        balls.set(i, ball);
        i = i + 1;
    }
    spawns
}

} // verus!
