//! Coordinate and tiling math for the play area: snapping raw coordinates to
//! the tile lattice, wrap-around at the edges, and random tile selection.

use vstd::prelude::*;
use vstd::arithmetic::div_mod::{
    lemma_add_mod_noop, lemma_mod_add_multiples_vanish, lemma_mod_multiples_basic,
    lemma_small_mod, lemma_sub_mod_noop,
};

verus! {

/// A tile-aligned point of the play area, in world units.
#[derive(Clone, Copy, Debug, PartialEq, Eq, Structural)]
pub struct Position {
    pub x: i32,
    pub y: i32,
}

/// One of the four axis-aligned movement directions.
#[derive(Clone, Copy, Debug, PartialEq, Eq, Structural)]
pub enum Direction {
    Up,
    Down,
    Left,
    Right,
}

impl Direction {
    /// The direction pointing exactly the opposite way.
    pub open spec fn opposite_spec(self) -> Direction {
        match self {
            Direction::Up => Direction::Down,
            Direction::Down => Direction::Up,
            Direction::Left => Direction::Right,
            Direction::Right => Direction::Left,
        }
    }

    pub fn opposite(self) -> (r: Direction)
        ensures
            r == self.opposite_spec(),
    {
        match self {
            Direction::Up => Direction::Down,
            Direction::Down => Direction::Up,
            Direction::Left => Direction::Right,
            Direction::Right => Direction::Left,
        }
    }

    /// Horizontal displacement of a one-tile step in this direction.
    pub open spec fn dx_spec(self, tile_size: int) -> int {
        match self {
            Direction::Left => -tile_size,
            Direction::Right => tile_size,
            _ => 0,
        }
    }

    /// Vertical displacement of a one-tile step in this direction.
    pub open spec fn dy_spec(self, tile_size: int) -> int {
        match self {
            Direction::Up => tile_size,
            Direction::Down => -tile_size,
            _ => 0,
        }
    }
}

/// Why a set of configuration constants was rejected at startup.
#[derive(Clone, Copy, Debug, PartialEq, Eq, Structural)]
pub enum ConfigError {
    /// The tile size is zero or negative.
    TileSizeNotPositive,
    /// A half-extent is smaller than one tile or larger than the
    /// coordinate range the arithmetic supports.
    ExtentOutOfRange,
    /// A half-extent is not an exact multiple of the tile size.
    ExtentNotAligned,
}

/// Largest half-extent (and tile size) the coordinate arithmetic supports
/// without overflowing `i32`.
pub const MAX_EXTENT: i32 = 500_000_000;

/// A coordinate one tile past an edge re-enters at the opposite edge; any
/// coordinate within one tile of the play area is left unchanged.
pub open spec fn wrap_coord(extent: int, tile_size: int, c: int) -> int {
    if c > extent + tile_size {
        -extent
    } else if c < -(extent + tile_size) {
        extent
    } else {
        c
    }
}

/// Immutable play-area configuration: half-extents and tile size.
#[derive(Clone, Copy, Debug, PartialEq, Eq, Structural)]
pub struct Grid {
    pub play_x: i32,
    pub play_y: i32,
    pub tile_size: i32,
}

impl Grid {
    /// Configuration invariant: a positive tile size that evenly divides
    /// both half-extents, all small enough for the step arithmetic.
    pub open spec fn wf(self) -> bool {
        &&& 0 < self.tile_size
        &&& self.tile_size <= self.play_x <= MAX_EXTENT
        &&& self.tile_size <= self.play_y <= MAX_EXTENT
        &&& self.play_x % self.tile_size == 0
        &&& self.play_y % self.tile_size == 0
    }

    /// A position a snake head can rest at: on the tile lattice, at most one
    /// tile past the play-area bounds on either axis (the wrap overshoot).
    pub open spec fn on_board(self, p: Position) -> bool {
        &&& p.x % self.tile_size == 0
        &&& p.y % self.tile_size == 0
        &&& -(self.play_x + self.tile_size) <= p.x <= self.play_x + self.tile_size
        &&& -(self.play_y + self.tile_size) <= p.y <= self.play_y + self.tile_size
    }

    /// A lattice position within the play-area bounds proper, where fruit
    /// may appear.
    pub open spec fn in_play_area(self, p: Position) -> bool {
        &&& p.x % self.tile_size == 0
        &&& p.y % self.tile_size == 0
        &&& -self.play_x <= p.x <= self.play_x
        &&& -self.play_y <= p.y <= self.play_y
    }

    /// Validates the configuration constants. Malformed configuration is a
    /// fatal startup error, never a mid-game condition.
    pub fn new(play_x: i32, play_y: i32, tile_size: i32) -> (r: Result<Grid, ConfigError>)
        ensures
            ({
                let g = Grid { play_x, play_y, tile_size };
                &&& (r == Ok::<Grid, ConfigError>(g) <==> g.wf())
                &&& tile_size <= 0 ==> r == Err::<Grid, ConfigError>(ConfigError::TileSizeNotPositive)
                &&& tile_size > 0 && !(tile_size <= play_x <= MAX_EXTENT && tile_size <= play_y
                    <= MAX_EXTENT) ==> r == Err::<Grid, ConfigError>(ConfigError::ExtentOutOfRange)
                &&& tile_size > 0 && (tile_size <= play_x <= MAX_EXTENT && tile_size <= play_y
                    <= MAX_EXTENT) && !(play_x % tile_size == 0 && play_y % tile_size == 0) ==> r
                    == Err::<Grid, ConfigError>(ConfigError::ExtentNotAligned)
            }),
    {
        if tile_size <= 0 {
            return Err(ConfigError::TileSizeNotPositive);
        }
        if !(tile_size <= play_x && play_x <= MAX_EXTENT && tile_size <= play_y && play_y
            <= MAX_EXTENT) {
            return Err(ConfigError::ExtentOutOfRange);
        }
        let xr = (play_x as u32) % (tile_size as u32);
        let yr = (play_y as u32) % (tile_size as u32);
        if !(xr == 0 && yr == 0) {
            return Err(ConfigError::ExtentNotAligned);
        }
        Ok(Grid { play_x, play_y, tile_size })
    }

    /// Rounds a raw coordinate up to the nearest multiple of the tile size,
    /// the same rule random placement uses, so that every entity lands on
    /// one lattice. The bound on `raw` covers the raw draws of both axes
    /// and keeps the shifted arithmetic within range.
    pub fn snap_to_tile(&self, raw: i32) -> (r: i32)
        requires
            self.wf(),
            -(self.play_x + self.play_y) <= raw <= self.play_x + self.play_y,
        ensures
            r % self.tile_size == 0,
            raw <= r < raw + self.tile_size,
    {
        let t: u64 = self.tile_size as u64;
        let shift: i64 = self.play_x as i64 + self.play_y as i64;
        let shifted: u64 = (raw as i64 + shift) as u64;
        let m: u64 = shifted % t;
        let snapped: u64 = if m == 0 {
            shifted
        } else {
            shifted + (t - m)
        };
        proof {
            let ti = t as int;
            let si = shifted as int;
            if m != 0 {
                lemma_sub_mod_noop(si, m as int, ti);
                lemma_small_mod(m as nat, t as nat);
                lemma_mod_add_multiples_vanish(si - m, ti);
            }
            assert(snapped as int % ti == 0);
            lemma_add_aligned(self.play_x as int, self.play_y as int, ti);
            lemma_sub_mod_noop(snapped as int, shift as int, ti);
            lemma_small_mod(0, t as nat);
        }
        (snapped as i64 - shift) as i32
    }

    /// Where a one-tile step `(dx, dy)` from `position` lands after the
    /// wrap-around boundary policy is applied on each axis.
    pub fn wrap(&self, position: Position, dx: i32, dy: i32) -> (r: Position)
        requires
            self.wf(),
            self.on_board(position),
            dx == self.tile_size || dx == 0 || dx == -self.tile_size,
            dy == self.tile_size || dy == 0 || dy == -self.tile_size,
        ensures
            r.x == wrap_coord(self.play_x as int, self.tile_size as int, position.x + dx),
            r.y == wrap_coord(self.play_y as int, self.tile_size as int, position.y + dy),
            self.on_board(r),
    {
        let mut x = position.x + dx;
        let mut y = position.y + dy;
        if x > self.play_x + self.tile_size {
            x = -self.play_x;
        } else if x < -(self.play_x + self.tile_size) {
            x = self.play_x;
        }
        if y > self.play_y + self.tile_size {
            y = -self.play_y;
        } else if y < -(self.play_y + self.tile_size) {
            y = self.play_y;
        }
        proof {
            lemma_step_aligned(position.x as int, dx as int, self.tile_size as int);
            lemma_step_aligned(position.y as int, dy as int, self.tile_size as int);
            lemma_neg_aligned(self.play_x as int, self.tile_size as int);
            lemma_neg_aligned(self.play_y as int, self.tile_size as int);
        }
        Position { x, y }
    }

    /// The head position one movement tick ahead: one tile in `direction`,
    /// then wrapped.
    pub open spec fn step_spec(self, position: Position, direction: Direction) -> Position {
        Position {
            x: wrap_coord(
                self.play_x as int,
                self.tile_size as int,
                position.x + direction.dx_spec(self.tile_size as int),
            ) as i32,
            y: wrap_coord(
                self.play_y as int,
                self.tile_size as int,
                position.y + direction.dy_spec(self.tile_size as int),
            ) as i32,
        }
    }

    /// Moves `position` one tile in `direction` and wraps it.
    pub fn step(&self, position: Position, direction: Direction) -> (r: Position)
        requires
            self.wf(),
            self.on_board(position),
        ensures
            r == self.step_spec(position, direction),
            self.on_board(r),
    {
        let (dx, dy): (i32, i32) = match direction {
            Direction::Up => (0, self.tile_size),
            Direction::Down => (0, -self.tile_size),
            Direction::Left => (-self.tile_size, 0),
            Direction::Right => (self.tile_size, 0),
        };
        self.wrap(position, dx, dy)
    }

    /// A uniformly drawn raw point of the play area snapped to the tile
    /// lattice. Nothing but lattice membership and the bounds is promised:
    /// the draw is random.
    pub fn random_tile_position(&self) -> (p: Position)
        requires
            self.wf(),
        ensures
            self.in_play_area(p),
    {
        let raw_x = random_in_range(-self.play_x, self.play_x);
        let raw_y = random_in_range(-self.play_y, self.play_y);
        let x = self.snap_to_tile(raw_x);
        let y = self.snap_to_tile(raw_y);
        proof {
            lemma_aligned_below(x as int, self.play_x as int, self.tile_size as int);
            lemma_aligned_below(y as int, self.play_y as int, self.tile_size as int);
        }
        Position { x, y }
    }

    /// The out-of-view resting place for a freshly grown segment: outside
    /// every position the wrap policy can produce, so it can collide with
    /// nothing until the next movement tick places it behind the tail.
    pub open spec fn sentinel_spec(self) -> Position {
        Position {
            x: (self.play_x + 2 * self.tile_size) as i32,
            y: (self.play_y + 2 * self.tile_size) as i32,
        }
    }

    /// The sentinel cell as a value, shown to lie off the board entirely.
    pub fn sentinel(&self) -> (p: Position)
        requires
            self.wf(),
        ensures
            p == self.sentinel_spec(),
            !self.on_board(p),
            !self.in_play_area(p),
    {
        Position { x: self.play_x + 2 * self.tile_size, y: self.play_y + 2 * self.tile_size }
    }
}

/// The sum of two multiples of `t` is a multiple of `t`.
pub proof fn lemma_add_aligned(a: int, b: int, t: int)
    requires
        0 < t,
        a % t == 0,
        b % t == 0,
    ensures
        (a + b) % t == 0,
{
    lemma_add_mod_noop(a, b, t);
    lemma_small_mod(0, t as nat);
}

/// The negation of a multiple of `t` is a multiple of `t`.
pub proof fn lemma_neg_aligned(a: int, t: int)
    requires
        0 < t,
        a % t == 0,
    ensures
        (-a) % t == 0,
{
    lemma_sub_mod_noop(0, a, t);
    lemma_small_mod(0, t as nat);
}

/// Adding a one-tile displacement (or none) keeps a coordinate on the
/// lattice.
pub proof fn lemma_step_aligned(c: int, d: int, t: int)
    requires
        0 < t,
        c % t == 0,
        d == t || d == 0 || d == -t,
    ensures
        (c + d) % t == 0,
{
    lemma_mod_multiples_basic(1, t);
    lemma_mod_multiples_basic(-1, t);
    lemma_small_mod(0, t as nat);
    lemma_add_aligned(c, d, t);
}

/// A multiple of `t` strictly below `bound + t` is at most `bound`, when
/// `bound` is itself a multiple of `t`.
pub proof fn lemma_aligned_below(r: int, bound: int, t: int)
    requires
        0 < t,
        r % t == 0,
        bound % t == 0,
        r < bound + t,
    ensures
        r <= bound,
{
    if r > bound {
        lemma_sub_mod_noop(r, bound, t);
        lemma_small_mod(0, t as nat);
        lemma_small_mod((r - bound) as nat, t as nat);
    }
}

/// Whether `p` occurs in `list`.
pub fn position_list_contains(list: &Vec<Position>, p: Position) -> (r: bool)
    ensures
        r == list@.contains(p),
{
    let n = list.len();
    let mut i: usize = 0;
    while i < n
        invariant
            i <= n,
            n == list@.len(),
            forall|j: int| 0 <= j < i ==> list@[j] != p,
        decreases n - i,
    {
        if list[i] == p {
            return true;
        }
        i += 1;
    }
    false
}

/// Relies on `rand::random_range` over `low..high`: a uniform draw that
/// always lies in that half-open range (the call panics only on an empty
/// range, which the precondition rules out).
#[verifier::external_body]
fn random_in_range(low: i32, high: i32) -> (r: i32)
    requires
        low < high,
    ensures
        low <= r < high,
{
    rand::random_range(low..high)
}

} // verus!
