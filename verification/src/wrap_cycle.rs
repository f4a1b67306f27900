//! Laws of the wrap boundary policy along one axis: a boundary tile steps
//! to the opposite edge, one full lap of one-tile advances returns exactly
//! to its start (no coordinate drift), and every tile of the axis is
//! visited on the way.

use vstd::prelude::*;
use vstd::arithmetic::div_mod::{
    lemma_div_is_ordered, lemma_div_multiples_vanish, lemma_div_pos_is_pos,
    lemma_fundamental_div_mod,
};
use vstd::arithmetic::mul::{
    lemma_mul_basics, lemma_mul_inequality, lemma_mul_is_commutative,
    lemma_mul_is_distributive_add_other_way,
};
use crate::grid::{lemma_add_aligned, wrap_coord, Direction, Grid, Position};

verus! {

/// One axis of a well-formed grid: a positive tile size that divides the
/// half-extent.
pub open spec fn axis_ok(extent: int, tile_size: int) -> bool {
    &&& 0 < tile_size <= extent
    &&& extent % tile_size == 0
}

/// One tile toward positive coordinates, with the wrap policy applied.
pub open spec fn step_forward(extent: int, tile_size: int, c: int) -> int {
    wrap_coord(extent, tile_size, c + tile_size)
}

/// `k` one-tile forward advances in a row.
pub open spec fn advance_forward(extent: int, tile_size: int, c: int, k: nat) -> int
    decreases k,
{
    if k == 0 {
        c
    } else {
        step_forward(extent, tile_size, advance_forward(extent, tile_size, c, (k - 1) as nat))
    }
}

/// The lattice cell `j` tiles up from the low edge of the axis.
pub open spec fn tile_at(extent: int, tile_size: int, j: int) -> int {
    -extent + j * tile_size
}

/// How many distinct cells the forward walk passes before repeating: the
/// lattice cells from `-extent` up to the overshoot tile one past the high
/// edge.
pub open spec fn cycle_len(extent: int, tile_size: int) -> int {
    2 * extent / tile_size + 2
}

/// Arithmetic facts about the cycle length.
proof fn lemma_cycle_len_facts(extent: int, tile_size: int)
    requires
        axis_ok(extent, tile_size),
    ensures
        (cycle_len(extent, tile_size) - 2) * tile_size == 2 * extent,
        cycle_len(extent, tile_size) >= 4,
{
    let n = cycle_len(extent, tile_size);
    lemma_add_aligned(extent, extent, tile_size);
    lemma_fundamental_div_mod(2 * extent, tile_size);
    lemma_mul_is_commutative(tile_size, n - 2);
    lemma_div_multiples_vanish(2, tile_size);
    lemma_mul_is_commutative(tile_size, 2);
    lemma_div_is_ordered(2 * tile_size, 2 * extent, tile_size);
}

/// One forward step from cell `j`: to cell `j + 1`, except from the last
/// cell of the cycle, which wraps to the low edge.
proof fn lemma_step_tile(extent: int, tile_size: int, j: int)
    requires
        axis_ok(extent, tile_size),
        0 <= j <= cycle_len(extent, tile_size) - 1,
    ensures
        j < cycle_len(extent, tile_size) - 1 ==> step_forward(
            extent,
            tile_size,
            tile_at(extent, tile_size, j),
        ) == tile_at(extent, tile_size, j + 1),
        j == cycle_len(extent, tile_size) - 1 ==> step_forward(
            extent,
            tile_size,
            tile_at(extent, tile_size, j),
        ) == tile_at(extent, tile_size, 0),
{
    let n = cycle_len(extent, tile_size);
    lemma_cycle_len_facts(extent, tile_size);
    lemma_mul_basics(tile_size);
    lemma_mul_is_distributive_add_other_way(tile_size, j, 1);
    lemma_mul_is_distributive_add_other_way(tile_size, n - 2, 1);
    lemma_mul_is_distributive_add_other_way(tile_size, n - 1, 1);
    assert((n - 1) * tile_size == 2 * extent + tile_size);
    if j < n - 1 {
        lemma_mul_inequality(j + 1, n - 1, tile_size);
        lemma_mul_inequality(1, j + 1, tile_size);
    } else {
        assert(j * tile_size + tile_size == 2 * extent + 2 * tile_size);
    }
}

/// While the walk stays short of the cycle's end it is plain addition:
/// `k` advances from cell `j` land on cell `j + k`.
proof fn lemma_advance_linear(extent: int, tile_size: int, j: int, k: int)
    requires
        axis_ok(extent, tile_size),
        0 <= j,
        0 <= k,
        j + k <= cycle_len(extent, tile_size) - 1,
    ensures
        advance_forward(extent, tile_size, tile_at(extent, tile_size, j), k as nat) == tile_at(
            extent,
            tile_size,
            j + k,
        ),
    decreases k,
{
    if k > 0 {
        lemma_advance_linear(extent, tile_size, j, k - 1);
        lemma_step_tile(extent, tile_size, j + k - 1);
    }
}

/// Advancing `a + b` times is advancing `a` times, then `b` times.
proof fn lemma_advance_compose(extent: int, tile_size: int, c: int, a: int, b: int)
    requires
        0 <= a,
        0 <= b,
    ensures
        advance_forward(extent, tile_size, c, (a + b) as nat) == advance_forward(
            extent,
            tile_size,
            advance_forward(extent, tile_size, c, a as nat),
            b as nat,
        ),
    decreases b,
{
    if b > 0 {
        lemma_advance_compose(extent, tile_size, c, a, b - 1);
    }
}

/// Every lattice coordinate the wrap policy admits is some cell of the
/// cycle: `c` is cell `(c + extent) / tile_size`.
proof fn lemma_tile_index(extent: int, tile_size: int, c: int)
    requires
        axis_ok(extent, tile_size),
        c % tile_size == 0,
        -extent <= c <= extent + tile_size,
    ensures
        0 <= (c + extent) / tile_size <= cycle_len(extent, tile_size) - 1,
        c == tile_at(extent, tile_size, (c + extent) / tile_size),
{
    let n = cycle_len(extent, tile_size);
    let j = (c + extent) / tile_size;
    lemma_cycle_len_facts(extent, tile_size);
    lemma_add_aligned(c, extent, tile_size);
    lemma_fundamental_div_mod(c + extent, tile_size);
    lemma_div_pos_is_pos(c + extent, tile_size);
    lemma_mul_is_commutative(tile_size, j);
    lemma_mul_is_distributive_add_other_way(tile_size, n - 2, 1);
    if j > n - 1 {
        lemma_mul_inequality(n, j, tile_size);
        lemma_mul_is_distributive_add_other_way(tile_size, n - 1, 1);
        assert(false);
    }
}

/// Boundary law: from the overshoot tile one past the high edge, a forward
/// step re-enters at the opposite edge of the axis.
pub proof fn lemma_wrap_to_opposite_edge(extent: int, tile_size: int, c: int)
    requires
        axis_ok(extent, tile_size),
        c == extent + tile_size,
    ensures
        step_forward(extent, tile_size, c) == -extent,
{
}

/// No-drift law: from any lattice coordinate the wrap policy admits, one
/// full lap of forward advances returns exactly to the start.
pub proof fn lemma_forward_lap_returns(extent: int, tile_size: int, c: int)
    requires
        axis_ok(extent, tile_size),
        c % tile_size == 0,
        -extent <= c <= extent + tile_size,
    ensures
        advance_forward(extent, tile_size, c, cycle_len(extent, tile_size) as nat) == c,
{
    let n = cycle_len(extent, tile_size);
    let j = (c + extent) / tile_size;
    lemma_tile_index(extent, tile_size, c);
    lemma_cycle_len_facts(extent, tile_size);
    lemma_advance_linear(extent, tile_size, j, n - 1 - j);
    lemma_step_tile(extent, tile_size, n - 1);
    assert(advance_forward(extent, tile_size, c, (n - j) as nat) == step_forward(
        extent,
        tile_size,
        advance_forward(extent, tile_size, c, (n - 1 - j) as nat),
    ));
    lemma_advance_compose(extent, tile_size, c, n - j, j);
    lemma_advance_linear(extent, tile_size, 0, j);
}

/// Coverage law: from any lattice coordinate the wrap policy admits, every
/// lattice coordinate of the axis is visited within one lap of forward
/// advances.
pub proof fn lemma_forward_visits_every_tile(extent: int, tile_size: int, c: int, target: int)
    requires
        axis_ok(extent, tile_size),
        c % tile_size == 0,
        -extent <= c <= extent + tile_size,
        target % tile_size == 0,
        -extent <= target <= extent + tile_size,
    ensures
        exists|k: int|
            0 <= k < cycle_len(extent, tile_size) && #[trigger] advance_forward(
                extent,
                tile_size,
                c,
                k as nat,
            ) == target,
{
    let n = cycle_len(extent, tile_size);
    let j = (c + extent) / tile_size;
    let m = (target + extent) / tile_size;
    lemma_tile_index(extent, tile_size, c);
    lemma_tile_index(extent, tile_size, target);
    lemma_cycle_len_facts(extent, tile_size);
    if m >= j {
        let k = m - j;
        lemma_advance_linear(extent, tile_size, j, k);
        assert(0 <= k < n && advance_forward(extent, tile_size, c, k as nat) == target);
    } else {
        let k = n - j + m;
        lemma_advance_linear(extent, tile_size, j, n - 1 - j);
        lemma_step_tile(extent, tile_size, n - 1);
        assert(advance_forward(extent, tile_size, c, (n - j) as nat) == step_forward(
            extent,
            tile_size,
            advance_forward(extent, tile_size, c, (n - 1 - j) as nat),
        ));
        lemma_advance_compose(extent, tile_size, c, n - j, m);
        lemma_advance_linear(extent, tile_size, 0, m);
        assert(0 <= k < n && advance_forward(extent, tile_size, c, k as nat) == target);
    }
}

/// One tile toward negative coordinates, with the wrap policy applied.
pub open spec fn step_backward(extent: int, tile_size: int, c: int) -> int {
    wrap_coord(extent, tile_size, c - tile_size)
}

/// `k` one-tile backward advances in a row.
pub open spec fn advance_backward(extent: int, tile_size: int, c: int, k: nat) -> int
    decreases k,
{
    if k == 0 {
        c
    } else {
        step_backward(extent, tile_size, advance_backward(extent, tile_size, c, (k - 1) as nat))
    }
}

/// The backward walk is the forward walk seen in a mirror.
proof fn lemma_advance_mirror(extent: int, tile_size: int, c: int, k: nat)
    requires
        axis_ok(extent, tile_size),
    ensures
        advance_backward(extent, tile_size, c, k) == -advance_forward(extent, tile_size, -c, k),
    decreases k,
{
    if k > 0 {
        lemma_advance_mirror(extent, tile_size, c, (k - 1) as nat);
        let f = advance_forward(extent, tile_size, -c, (k - 1) as nat);
        assert(step_backward(extent, tile_size, -f) == -step_forward(extent, tile_size, f));
    }
}

/// Boundary law, mirrored: from the overshoot tile one past the low edge,
/// a backward step re-enters at the opposite edge of the axis.
pub proof fn lemma_wrap_to_opposite_edge_backward(extent: int, tile_size: int, c: int)
    requires
        axis_ok(extent, tile_size),
        c == -(extent + tile_size),
    ensures
        step_backward(extent, tile_size, c) == extent,
{
}

/// No-drift law for the backward direction.
pub proof fn lemma_backward_lap_returns(extent: int, tile_size: int, c: int)
    requires
        axis_ok(extent, tile_size),
        c % tile_size == 0,
        -(extent + tile_size) <= c <= extent,
    ensures
        advance_backward(extent, tile_size, c, cycle_len(extent, tile_size) as nat) == c,
{
    lemma_cycle_len_facts(extent, tile_size);
    lemma_advance_mirror(extent, tile_size, c, cycle_len(extent, tile_size) as nat);
    crate::grid::lemma_neg_aligned(c, tile_size);
    lemma_forward_lap_returns(extent, tile_size, -c);
}

/// Coverage law for the backward direction.
pub proof fn lemma_backward_visits_every_tile(extent: int, tile_size: int, c: int, target: int)
    requires
        axis_ok(extent, tile_size),
        c % tile_size == 0,
        -(extent + tile_size) <= c <= extent,
        target % tile_size == 0,
        -(extent + tile_size) <= target <= extent,
    ensures
        exists|k: int|
            0 <= k < cycle_len(extent, tile_size) && #[trigger] advance_backward(
                extent,
                tile_size,
                c,
                k as nat,
            ) == target,
{
    crate::grid::lemma_neg_aligned(c, tile_size);
    crate::grid::lemma_neg_aligned(target, tile_size);
    lemma_forward_visits_every_tile(extent, tile_size, -c, -target);
    let k = choose|k: int|
        0 <= k < cycle_len(extent, tile_size) && #[trigger] advance_forward(
            extent,
            tile_size,
            -c,
            k as nat,
        ) == -target;
    lemma_advance_mirror(extent, tile_size, c, k as nat);
    assert(0 <= k < cycle_len(extent, tile_size) && advance_backward(extent, tile_size, c, k as nat)
        == target);
}

/// The axis walks are exactly what the grid's step does to the matching
/// coordinate: forward to `x` under a `Right` step and to `y` under an
/// `Up` step, backward to `x` under `Left` and to `y` under `Down`.
pub proof fn lemma_step_matches_axis(grid: Grid, p: Position)
    requires
        grid.wf(),
        grid.on_board(p),
    ensures
        grid.step_spec(p, Direction::Right).x == step_forward(
            grid.play_x as int,
            grid.tile_size as int,
            p.x as int,
        ),
        grid.step_spec(p, Direction::Up).y == step_forward(
            grid.play_y as int,
            grid.tile_size as int,
            p.y as int,
        ),
        grid.step_spec(p, Direction::Left).x == step_backward(
            grid.play_x as int,
            grid.tile_size as int,
            p.x as int,
        ),
        grid.step_spec(p, Direction::Down).y == step_backward(
            grid.play_y as int,
            grid.tile_size as int,
            p.y as int,
        ),
{
}

} // verus!
