//! Fruit placement: a retry loop that draws random lattice positions until
//! one misses the occupied cells, with a bounded attempt count.

use vstd::prelude::*;
use crate::grid::{position_list_contains, Grid, Position};

verus! {

/// How many random draws one spawn attempt may make before reporting that
/// no placement was found. A bound keeps a nearly full board from turning
/// the retry loop into a livelock.
pub const SPAWN_ATTEMPT_LIMIT: u32 = 4096;

/// Nothing in `forbidden` lies within the play area, so no draw can ever
/// collide with it.
pub open spec fn nothing_forbidden_in_area(grid: Grid, forbidden: Seq<Position>) -> bool {
    forall|i: int| 0 <= i < forbidden.len() ==> !grid.in_play_area(#[trigger] forbidden[i])
}

/// Picks a random tile of the play area that is not in `forbidden`.
///
/// A draw lands in the forbidden set only to be redrawn, up to
/// `max_attempts` times. `None` is the non-fatal "no placement found"
/// signal for a degenerate (nearly full) board; the draws are random, so
/// success on a partly occupied board cannot be promised, but a returned
/// position is never forbidden and always a lattice cell within the
/// play-area bounds — and when no forbidden position lies in the play area
/// at all (an empty forbidden set included), the very first draw must
/// succeed, so `Some` is owed.
pub fn spawn(grid: &Grid, forbidden: &Vec<Position>, max_attempts: u32) -> (r: Option<Position>)
    requires
        grid.wf(),
    ensures
        match r {
            Some(p) => !forbidden@.contains(p) && grid.in_play_area(p),
            None => true,
        },
        max_attempts > 0 && nothing_forbidden_in_area(*grid, forbidden@) ==> r is Some,
{
    let mut attempt: u32 = 0;
    while attempt < max_attempts
        invariant
            grid.wf(),
            nothing_forbidden_in_area(*grid, forbidden@) ==> attempt == 0,
        decreases max_attempts - attempt,
    {
        let candidate = grid.random_tile_position();
        if !position_list_contains(forbidden, candidate) {
            return Some(candidate);
        }
        proof {
            // The candidate is a play-area cell found in `forbidden`, so
            // something forbidden does lie in the play area.
            if nothing_forbidden_in_area(*grid, forbidden@) {
                let j = choose|j: int| 0 <= j < forbidden@.len() && forbidden@[j] == candidate;
                assert(!grid.in_play_area(forbidden@[j]));
                assert(false);
            }
        }
        attempt += 1;
    }
    None
}

} // verus!
