//! The one source of chance.

use vstd::prelude::*;

verus! {

/// Draws a number below `bound` from the pseudo-random generator that the
/// game host shares with the whole process.
///
/// Trusted: the body calls `macroquad::rand::gen_range` with `0` and `bound`.
/// That function scales a 32-bit draw to a fraction in `[0, 1)`, multiplies
/// the width of the range by it and cuts the fractional part off, so for a
/// positive `bound` the result is below `bound`. Which number comes out
/// depends on the draws made before; nothing is claimed about that.
#[verifier::external_body]
pub(crate) fn random_below(bound: u32) -> (drawn: u32)
    requires
        bound > 0,
    ensures
        drawn < bound,
{
    macroquad::rand::gen_range(0u32, bound)
}

} // verus!
