//! The grid of blocks that a round starts with.

use crate::block::{Block, BlockType, BLOCK_HEIGHT, BLOCK_WIDTH};
use crate::fixed::quotient_toward_zero;
use crate::geometry::Vec2;
use crate::host::Screen;
use crate::random::random_below;
use vstd::prelude::*;

verus! {

/// Blocks in a row of the grid.
pub const GRID_COLUMNS: usize = 6;

/// Rows of the grid.
pub const GRID_ROWS: usize = 6;

/// Blocks in the grid.
pub const GRID_BLOCKS: usize = 36;

/// Gap between neighbouring blocks.
pub const BLOCK_PADDING: i64 = 5_000;

/// Distance from the top of the screen to the first row.
pub const GRID_TOP: i64 = 50_000;

/// Width of a cell: a block with the gap to its right.
pub const CELL_WIDTH: i64 = BLOCK_WIDTH + BLOCK_PADDING;

/// Height of a cell: a block with the gap below it.
pub const CELL_HEIGHT: i64 = BLOCK_HEIGHT + BLOCK_PADDING;

/// Width of the grid: every block with the gap to its right.
pub const GRID_WIDTH: i64 = 510_000;

/// Distance from the top of the screen to the bottom of the last row.
pub const GRID_BOTTOM: i64 = 267_000;

/// How many blocks of a new grid are picked to be special. The same block
/// may be picked more than once, so between one and this many are special.
pub const SPECIAL_PICKS: usize = 3;

/// Left edge of a grid centred on a screen of the given width. On a screen
/// narrower than the grid it is negative.
pub open spec fn grid_left(screen: Screen) -> int {
    quotient_toward_zero(screen.width - GRID_WIDTH, 2)
}

/// Top-left corner of cell `i` of the grid, cells counted row by row from
/// the top left.
pub open spec fn cell_corner(i: int, screen: Screen) -> Vec2 {
    Vec2 {
        x: (grid_left(screen) + (i % GRID_COLUMNS as int) * CELL_WIDTH) as i64,
        y: (GRID_TOP + (i / GRID_COLUMNS as int) * CELL_HEIGHT) as i64,
    }
}

/// The grid before any block is made special.
pub open spec fn plain_grid(screen: Screen) -> Seq<Block> {
    Seq::new(GRID_BLOCKS as nat, |i: int| Block::fresh(cell_corner(i, screen), BlockType::Regular))
}

/// The blocks with the one at `index` made special.
pub open spec fn with_special(blocks: Seq<Block>, index: int) -> Seq<Block> {
    blocks.update(index, Block { block_type: BlockType::SpawnBallOnDeath, ..blocks[index] })
}

/// `blocks` is a new grid for the given screen: the plain grid with three
/// picks, not necessarily distinct, made special.
pub open spec fn is_new_grid(blocks: Seq<Block>, screen: Screen) -> bool {
    exists|a: int, b: int, c: int|
        0 <= a < GRID_BLOCKS && 0 <= b < GRID_BLOCKS && 0 <= c < GRID_BLOCKS && blocks
            == #[trigger] with_special(with_special(with_special(plain_grid(screen), a), b), c)
}

/// Every block of a new grid stands in its cell, unhit, with the size of a
/// block, and rests within the arena.
pub proof fn lemma_new_grid_blocks(blocks: Seq<Block>, screen: Screen)
    requires
        is_new_grid(blocks, screen),
    ensures
        blocks.len() == GRID_BLOCKS,
        forall|i: int|
            0 <= i < GRID_BLOCKS ==> {
                &&& (#[trigger] blocks[i]).rectangle == Block::fresh(
                    cell_corner(i, screen),
                    BlockType::Regular,
                ).rectangle
                &&& blocks[i].lives == crate::block::BLOCK_LIVES
                &&& blocks[i].rectangle.rests_in_arena()
            },
{
}

/// In a new grid at least one block and at most three are special: those
/// that were picked. All others are regular.
pub proof fn lemma_new_grid_specials(blocks: Seq<Block>, screen: Screen)
    requires
        is_new_grid(blocks, screen),
    ensures
        exists|a: int, b: int, c: int|
            {
                &&& 0 <= a < GRID_BLOCKS
                &&& 0 <= b < GRID_BLOCKS
                &&& 0 <= c < GRID_BLOCKS
                &&& #[trigger] picked_are_special(blocks, a, b, c)
            },
{
    let (a, b, c) = choose|a: int, b: int, c: int|
        0 <= a < GRID_BLOCKS && 0 <= b < GRID_BLOCKS && 0 <= c < GRID_BLOCKS && blocks
            == #[trigger] with_special(with_special(with_special(plain_grid(screen), a), b), c);
    assert(picked_are_special(blocks, a, b, c));
}

/// The special blocks among the first thirty-six are exactly those at the
/// places `a`, `b` and `c`.
pub open spec fn picked_are_special(blocks: Seq<Block>, a: int, b: int, c: int) -> bool {
    forall|i: int|
        0 <= i < GRID_BLOCKS ==> ((#[trigger] blocks[i]).block_type == BlockType::SpawnBallOnDeath
            <==> (i == a || i == b || i == c))
}

/// On a screen at least as wide as the grid every cell lies between the
/// left and the right edge of the screen. Every cell lies below the top
/// edge, and on a screen at least as high as the bottom of the last row
/// every cell lies above the bottom edge.
pub proof fn lemma_grid_on_screen(i: int, screen: Screen)
    requires
        0 <= i < GRID_BLOCKS,
    ensures
        screen.width >= GRID_WIDTH ==> 0 <= cell_corner(i, screen).x && cell_corner(i, screen).x
            + BLOCK_WIDTH <= screen.width,
        GRID_TOP <= cell_corner(i, screen).y,
        cell_corner(i, screen).y + BLOCK_HEIGHT <= GRID_BOTTOM,
        screen.height >= GRID_BOTTOM ==> cell_corner(i, screen).y + BLOCK_HEIGHT <= screen.height,
{
}

/// Appends the plain grid for the given screen to `blocks`.
pub fn lay_out_grid(blocks: &mut Vec<Block>, screen: Screen)
    ensures
        final(blocks)@ == old(blocks)@ + plain_grid(screen),
{
    let start_x: i64 = (screen.width as i64 - CELL_WIDTH * (GRID_COLUMNS as i64)) / 2;
    let start_y: i64 = GRID_TOP;
    let mut i: usize = 0;
    while i < GRID_COLUMNS * GRID_ROWS
        invariant
            0 <= i <= GRID_BLOCKS,
            start_x == grid_left(screen),
            start_y == GRID_TOP,
            blocks@ == old(blocks)@ + plain_grid(screen).take(i as int),
        decreases GRID_BLOCKS - i,
    {
        let block_x: i64 = ((i % GRID_COLUMNS) as i64) * CELL_WIDTH;
        let block_y: i64 = ((i / GRID_COLUMNS) as i64) * CELL_HEIGHT;
        let corner = Vec2 { x: start_x + block_x, y: start_y + block_y };
        blocks.push(Block::new(corner, BlockType::Regular));
        i = i + 1;
    }
}

/// Makes the block at `index` special.
pub fn mark_special(blocks: &mut Vec<Block>, index: usize)
    requires
        index < old(blocks)@.len(),
    ensures
        final(blocks)@ == with_special(old(blocks)@, index as int),
{
    let mut block: Block = blocks[index];
    block.block_type = BlockType::SpawnBallOnDeath;
    blocks.set(index, block);
}

/// Appends a new grid for the given screen to `blocks`: the plain grid, of
/// which three cells picked at random, one after the other and each from the
/// whole grid, are made special.
pub fn init_blocks(blocks: &mut Vec<Block>, screen: Screen)
    ensures
        final(blocks)@.len() == old(blocks)@.len() + GRID_BLOCKS,
        final(blocks)@.subrange(0, old(blocks)@.len() as int) == old(blocks)@,
        is_new_grid(
            final(blocks)@.subrange(old(blocks)@.len() as int, final(blocks)@.len() as int),
            screen,
        ),
{
    let first: usize = blocks.len();
    lay_out_grid(blocks, screen);
    let total: usize = blocks.len();
    let ghost mut picks: Seq<int> = Seq::empty();
    let mut n: usize = 0;
    while n < SPECIAL_PICKS
        invariant
            0 <= n <= SPECIAL_PICKS,
            first == old(blocks)@.len(),
            total == first + GRID_BLOCKS,
            blocks@.len() == total,
            blocks@.subrange(0, first as int) == old(blocks)@,
            picks.len() == n,
            forall|k: int| 0 <= k < n ==> 0 <= #[trigger] picks[k] < GRID_BLOCKS,
            blocks@.subrange(first as int, blocks@.len() as int) == marked(
                plain_grid(screen),
                picks,
            ),
        decreases SPECIAL_PICKS - n,
    {
        let pick: u32 = random_below(GRID_BLOCKS as u32);
        mark_special(blocks, first + pick as usize);
        proof {
            assert(picks.push(pick as int).drop_last() == picks);
            picks = picks.push(pick as int);
        }
        n = n + 1;
    }
    proof {
        reveal_with_fuel(marked, 4);
    }
}

/// The blocks with each of `picks` made special, in order.
pub open spec fn marked(blocks: Seq<Block>, picks: Seq<int>) -> Seq<Block>
    decreases picks.len(),
{
    if picks.len() == 0 {
        blocks
    } else {
        with_special(marked(blocks, picks.drop_last()), picks.last())
    }
}

} // verus!
