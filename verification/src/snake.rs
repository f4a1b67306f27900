//! The snake: head position and heading plus the ordered chain of body
//! segments, with the follow-the-leader movement and growth rules.

use vstd::prelude::*;
use vstd::arithmetic::div_mod::lemma_small_mod;
use crate::grid::{Direction, Grid, Position};

verus! {

/// Mathematical model of a snake: the head, its heading, and the segment
/// positions in head-to-tail order (nearest to the head first).
pub ghost struct SnakeModel {
    pub head: Position,
    pub direction: Direction,
    pub segments: Seq<Position>,
}

impl SnakeModel {
    /// The snake a fresh session starts with: head at the world origin,
    /// heading right, one segment resting at the out-of-view sentinel.
    pub open spec fn initial(grid: Grid) -> SnakeModel {
        SnakeModel {
            head: Position { x: 0, y: 0 },
            direction: Direction::Right,
            segments: seq![grid.sentinel_spec()],
        }
    }

    /// The snake after a direction request: a request for the exact
    /// opposite of the current heading is ignored, any other replaces it.
    pub open spec fn directed(self, requested: Direction) -> SnakeModel {
        if requested == self.direction.opposite_spec() {
            self
        } else {
            SnakeModel { head: self.head, direction: requested, segments: self.segments }
        }
    }

    /// The snake after the latest pending request, if any, is applied.
    pub open spec fn directed_by(self, pending: Option<Direction>) -> SnakeModel {
        match pending {
            Some(d) => self.directed(d),
            None => self,
        }
    }

    /// The snake one movement tick later: the head moves one tile in its
    /// heading and wraps, and each segment takes the position the entity
    /// immediately ahead of it held before the tick.
    pub open spec fn advanced(self, grid: Grid) -> SnakeModel {
        SnakeModel {
            head: grid.step_spec(self.head, self.direction),
            direction: self.direction,
            segments: Seq::new(
                self.segments.len(),
                |i: int|
                    if i == 0 {
                        self.head
                    } else {
                        self.segments[i - 1]
                    },
            ),
        }
    }

    /// The snake after one growth event: one more segment, resting at the
    /// sentinel until the next movement tick pulls it behind the tail.
    pub open spec fn grown(self, grid: Grid) -> SnakeModel {
        SnakeModel {
            head: self.head,
            direction: self.direction,
            segments: self.segments.push(grid.sentinel_spec()),
        }
    }

    /// Whether the head rests on one of the body segments.
    pub open spec fn self_hit(self) -> bool {
        self.segments.contains(self.head)
    }

    /// Every cell the snake occupies: the head first, then the segments.
    pub open spec fn occupied(self) -> Seq<Position> {
        seq![self.head] + self.segments
    }

    /// The head rests on a lattice cell the wrap policy can produce.
    pub open spec fn wf(self, grid: Grid) -> bool {
        grid.on_board(self.head)
    }
}

/// The player-controlled snake.
pub struct Snake {
    pub head: Position,
    pub direction: Direction,
    pub segments: Vec<Position>,
}

impl View for Snake {
    type V = SnakeModel;

    open spec fn view(&self) -> SnakeModel {
        SnakeModel { head: self.head, direction: self.direction, segments: self.segments@ }
    }
}

impl Snake {
    /// A fresh snake for a new session.
    pub fn new(grid: &Grid) -> (s: Snake)
        requires
            grid.wf(),
        ensures
            s@ == SnakeModel::initial(*grid),
            s@.wf(*grid),
    {
        let mut segments: Vec<Position> = Vec::new();
        segments.push(grid.sentinel());
        let s = Snake { head: Position { x: 0, y: 0 }, direction: Direction::Right, segments };
        proof {
            lemma_small_mod(0, grid.tile_size as nat);
            assert(s@.segments =~= SnakeModel::initial(*grid).segments);
        }
        s
    }

    /// Applies a direction request. A request for the exact opposite of the
    /// current heading is deliberately swallowed: a 180-degree reversal
    /// would mean an unavoidable immediate self-collision.
    pub fn set_direction(&mut self, requested: Direction)
        ensures
            final(self)@ == old(self)@.directed(requested),
    {
        if !(requested == self.direction.opposite()) {
            self.direction = requested;
        }
    }

    /// One movement tick: the head steps one tile in its heading (with
    /// wrap-around), and the whole chain shifts forward, each segment
    /// inheriting the previous position of the one in front. Only
    /// coordinates change; segment identity and order never do.
    pub fn advance(&mut self, grid: &Grid)
        requires
            grid.wf(),
            old(self)@.wf(*grid),
        ensures
            final(self)@ == old(self)@.advanced(*grid),
            final(self)@.wf(*grid),
    {
        let mut prev = self.head;
        self.head = grid.step(self.head, self.direction);
        let n = self.segments.len();
        let mut i: usize = 0;
        while i < n
            invariant
                i <= n,
                n == self.segments.len(),
                n == old(self).segments@.len(),
                self.head == old(self)@.advanced(*grid).head,
                self.direction == old(self).direction,
                forall|j: int|
                    0 <= j < i ==> self.segments@[j] == old(self)@.advanced(*grid).segments[j],
                forall|j: int| i <= j < n ==> self.segments@[j] == old(self).segments@[j],
                prev == if i == 0 {
                    old(self).head
                } else {
                    old(self).segments@[i - 1]
                },
            decreases n - i,
        {
            let next_prev = self.segments[i];
            self.segments.set(i, prev);
            prev = next_prev;
            proof {
                assert(self.segments@[i as int] == old(self)@.advanced(*grid).segments[i as int]);
            }
            i += 1;
        }
        proof {
            assert(self@.segments =~= old(self)@.advanced(*grid).segments);
        }
    }

    /// Appends one new segment at the out-of-view sentinel. It is invisible
    /// and non-colliding for exactly one tick; the next movement tick
    /// places it behind the tail through the normal chain-follow rule.
    /// Repeated growth requests before a tick each append independently.
    pub fn grow(&mut self, grid: &Grid)
        requires
            grid.wf(),
        ensures
            final(self)@ == old(self)@.grown(*grid),
    {
        let sentinel = grid.sentinel();
        self.segments.push(sentinel);
    }

    /// Every cell the snake occupies, head first.
    pub fn occupied(&self) -> (v: Vec<Position>)
        ensures
            v@ == self@.occupied(),
    {
        let mut v: Vec<Position> = Vec::new();
        v.push(self.head);
        let n = self.segments.len();
        let mut i: usize = 0;
        while i < n
            invariant
                i <= n,
                n == self.segments.len(),
                v@ == seq![self.head] + self.segments@.subrange(0, i as int),
            decreases n - i,
        {
            let p = self.segments[i];
            v.push(p);
            proof {
                assert(v@ =~= seq![self.head] + self.segments@.subrange(0, i + 1));
            }
            i += 1;
        }
        proof {
            assert(self.segments@.subrange(0, n as int) =~= self.segments@);
        }
        v
    }
}

/// A cell clear of the whole snake can be re-occupied only by the head
/// across a movement tick: each segment merely inherits a cell the snake
/// already held.
pub proof fn lemma_advance_keeps_clear(s: SnakeModel, grid: Grid, p: Position)
    requires
        !s.occupied().contains(p),
        s.advanced(grid).head != p,
    ensures
        !s.advanced(grid).occupied().contains(p),
{
    let s1 = s.advanced(grid);
    assert forall|i: int| 0 <= i < s1.occupied().len() implies s1.occupied()[i] != p by {
        if i >= 1 {
            assert(s1.occupied()[i] == s1.segments[i - 1]);
            assert(s1.segments[i - 1] == s.occupied()[i - 1]);
            assert(s.occupied()[i - 1] != p);
        }
    }
}

/// Chain-follow law: after a movement tick every segment rests exactly
/// where the entity immediately ahead of it (the head, for the first
/// segment) stood before that tick, for snakes of any length.
pub proof fn lemma_chain_follow(s: SnakeModel, grid: Grid)
    ensures
        s.advanced(grid).segments.len() == s.segments.len(),
        s.segments.len() > 0 ==> s.advanced(grid).segments[0] == s.head,
        forall|i: int|
            1 <= i < s.segments.len() ==> s.advanced(grid).segments[i] == s.segments[i - 1],
{
}

/// Reversal law: requesting the exact opposite of the current heading
/// leaves the snake, its heading included, unchanged.
pub proof fn lemma_reversal_ignored(s: SnakeModel)
    ensures
        s.directed(s.direction.opposite_spec()) == s,
{
}

} // verus!
