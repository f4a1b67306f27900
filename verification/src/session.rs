//! The game session: the fixed-tick update, the score, and the three-phase
//! state machine that governs which entities exist.

use vstd::prelude::*;
use crate::collision::{check_fruit, check_self_collision};
use crate::fruit::{nothing_forbidden_in_area, spawn, SPAWN_ATTEMPT_LIMIT};
use crate::grid::{Direction, Grid, Position};
use crate::snake::{Snake, SnakeModel};

verus! {

/// Exactly one phase is active at a time; transitions are the sole
/// mechanism that creates or destroys the snake and the fruit.
#[derive(Clone, Copy, Debug, PartialEq, Eq, Structural)]
pub enum GameState {
    MainMenu,
    InGame,
    GameOver,
}

/// The whole simulation state: configuration, phase, score, entities, and
/// the latest direction request since the previous movement tick.
pub struct GameSession {
    pub grid: Grid,
    pub state: GameState,
    pub score: usize,
    pub snake: Option<Snake>,
    pub fruit: Option<Position>,
    pub pending_direction: Option<Direction>,
}

/// What a fruit placement promises: `Some` is never on an occupied cell
/// and always a play-area lattice cell; `None`, the paused "no placement
/// found" outcome of a degenerate board, can arise only when some occupied
/// cell actually lies in the play area for the draws to collide with.
pub open spec fn fruit_spawn_ok(grid: Grid, occupied: Seq<Position>, fruit: Option<
    Position,
>) -> bool {
    &&& match fruit {
        Some(f) => !occupied.contains(f) && grid.in_play_area(f),
        None => true,
    }
    &&& nothing_forbidden_in_area(grid, occupied) ==> fruit is Some
}

impl GameSession {
    /// The snake's model while one exists; immaterial otherwise.
    pub open spec fn snake_model(self) -> SnakeModel {
        match self.snake {
            Some(s) => s@,
            None => SnakeModel::initial(self.grid),
        }
    }

    /// Session invariant. The snake exists exactly while the game runs, the
    /// fruit only then and never on a cell the snake occupies, and the
    /// score always counts the fruits eaten: the chain carries one segment
    /// per fruit plus the starting one.
    pub open spec fn wf(self) -> bool {
        &&& self.grid.wf()
        &&& self.state == GameState::InGame ==> {
            &&& self.snake matches Some(s)
            &&& self.snake_model().wf(self.grid)
            &&& self.snake_model().segments.len() == self.score + 1
        }
        &&& self.state != GameState::InGame ==> self.snake is None && self.fruit is None
        &&& match self.fruit {
            Some(f) => {
                &&& self.grid.in_play_area(f)
                &&& self.state == GameState::InGame
                &&& !self.snake_model().occupied().contains(f)
            },
            None => true,
        }
    }

    /// What entering the running phase establishes: score reset to zero, a
    /// fresh snake with its head at the world origin heading right, and a
    /// fruit placed off the snake's occupied cells (or the spawn paused on
    /// a degenerate board).
    pub open spec fn entry_ok(pre: GameSession, post: GameSession) -> bool {
        &&& post.grid == pre.grid
        &&& post.state == GameState::InGame
        &&& post.score == 0
        &&& post.pending_direction is None
        &&& post.snake matches Some(s) && s@ == SnakeModel::initial(pre.grid)
        &&& fruit_spawn_ok(pre.grid, SnakeModel::initial(pre.grid).occupied(), post.fruit)
    }

    /// What one movement tick does while the game runs. The pending request
    /// is applied, the snake advances, and the post-move position decides:
    /// a self-collision ends the session with the score frozen; landing on
    /// the fruit scores one point, grows the snake and relocates the fruit
    /// off the post-growth occupied cells; otherwise everything but the
    /// snake stands (a paused fruit spawn is retried).
    pub open spec fn tick_outcome(pre: GameSession, post: GameSession) -> bool {
        let s1 = pre.snake_model().directed_by(pre.pending_direction).advanced(pre.grid);
        &&& post.grid == pre.grid
        &&& post.pending_direction is None
        &&& if s1.self_hit() {
            &&& post.state == GameState::GameOver
            &&& post.snake is None
            &&& post.fruit is None
            &&& post.score == pre.score
        } else {
            &&& post.state == GameState::InGame
            &&& match pre.fruit {
                Some(f) => {
                    if s1.head == f {
                        &&& post.score == pre.score + 1
                        &&& post.snake matches Some(s) && s@ == s1.grown(pre.grid)
                        &&& fruit_spawn_ok(pre.grid, s1.grown(pre.grid).occupied(), post.fruit)
                    } else {
                        &&& post.score == pre.score
                        &&& post.snake matches Some(s) && s@ == s1
                        &&& post.fruit == pre.fruit
                    }
                },
                None => {
                    &&& post.score == pre.score
                    &&& post.snake matches Some(s) && s@ == s1
                    &&& fruit_spawn_ok(pre.grid, s1.occupied(), post.fruit)
                },
            }
        }
    }

    /// A new session at the main menu: no entities yet, nothing scored.
    pub fn new(grid: Grid) -> (s: GameSession)
        requires
            grid.wf(),
        ensures
            s.wf(),
            s.grid == grid,
            s.state == GameState::MainMenu,
            s.score == 0,
            s.snake is None,
            s.fruit is None,
            s.pending_direction is None,
    {
        GameSession {
            grid,
            state: GameState::MainMenu,
            score: 0,
            snake: None,
            fruit: None,
            pending_direction: None,
        }
    }

    /// Runs the entry sequence of the running phase.
    fn enter_in_game(&mut self)
        requires
            old(self).wf(),
        ensures
            final(self).wf(),
            Self::entry_ok(*old(self), *final(self)),
    {
        self.score = 0;
        let snake = Snake::new(&self.grid);
        let occ = snake.occupied();
        self.fruit = spawn(&self.grid, &occ, SPAWN_ATTEMPT_LIMIT);
        self.snake = Some(snake);
        self.pending_direction = None;
        self.state = GameState::InGame;
    }

    /// The "start" intent: from the main menu the running phase is entered;
    /// in any other phase the intent is not valid and is silently ignored.
    pub fn start_game(&mut self)
        requires
            old(self).wf(),
        ensures
            final(self).wf(),
            old(self).state == GameState::MainMenu ==> Self::entry_ok(*old(self), *final(self)),
            old(self).state != GameState::MainMenu ==> *final(self) == *old(self),
    {
        if self.state == GameState::MainMenu {
            self.enter_in_game();
        }
    }

    /// The "restart" intent: from the game-over screen the entry sequence
    /// runs again, fully replacing the prior snake and fruit; in any other
    /// phase the intent is not valid and is silently ignored.
    pub fn restart_game(&mut self)
        requires
            old(self).wf(),
        ensures
            final(self).wf(),
            old(self).state == GameState::GameOver ==> Self::entry_ok(*old(self), *final(self)),
            old(self).state != GameState::GameOver ==> *final(self) == *old(self),
    {
        if self.state == GameState::GameOver {
            self.enter_in_game();
        }
    }

    /// Leaves for the main menu from any phase, destroying the entities the
    /// session created; the final score stays readable.
    pub fn exit_to_menu(&mut self)
        requires
            old(self).wf(),
        ensures
            final(self).wf(),
            final(self).grid == old(self).grid,
            final(self).state == GameState::MainMenu,
            final(self).score == old(self).score,
            final(self).snake is None,
            final(self).fruit is None,
            final(self).pending_direction is None,
    {
        self.state = GameState::MainMenu;
        self.snake = None;
        self.fruit = None;
        self.pending_direction = None;
    }

    /// Stores a decoded direction request. Requests may arrive on any
    /// frame; only the latest one since the previous movement tick is kept,
    /// and it takes effect at the next movement tick.
    pub fn request_direction(&mut self, requested: Direction)
        ensures
            final(self).pending_direction == Some(requested),
            final(self).grid == old(self).grid,
            final(self).state == old(self).state,
            final(self).score == old(self).score,
            final(self).snake == old(self).snake,
            final(self).fruit == old(self).fruit,
            old(self).wf() ==> final(self).wf(),
    {
        self.pending_direction = Some(requested);
    }

    /// One movement tick. Outside the running phase nothing happens; while
    /// the game runs the update follows `tick_outcome`.
    pub fn tick(&mut self)
        requires
            old(self).wf(),
        ensures
            final(self).wf(),
            old(self).state != GameState::InGame ==> *final(self) == *old(self),
            old(self).state == GameState::InGame ==> Self::tick_outcome(*old(self), *final(self)),
    {
        if !(self.state == GameState::InGame) {
            return;
        }
        let g = self.grid;
        let pending = self.pending_direction;
        self.pending_direction = None;
        let mut self_hit = false;
        let mut fruit_hit = false;
        let mut need_respawn = false;
        let mut occ: Vec<Position> = Vec::new();
        match &mut self.snake {
            Some(snake) => {
                if let Some(d) = pending {
                    snake.set_direction(d);
                }
                snake.advance(&g);
                // Pins segments@.len() at or under usize::MAX; the score is
                // one less, so scoring a fruit below cannot overflow it.
                let _segment_count = snake.segments.len();
                self_hit = check_self_collision(snake.head, &snake.segments);
                if !self_hit {
                    match self.fruit {
                        Some(f) => {
                            if check_fruit(snake.head, f) {
                                fruit_hit = true;
                                snake.grow(&g);
                                need_respawn = true;
                            }
                        },
                        None => {
                            need_respawn = true;
                        },
                    }
                    if need_respawn {
                        occ = snake.occupied();
                    }
                }
            },
            None => {
                // The running phase always owns a snake (session invariant).
                proof {
                    assert(false);
                }
            },
        }
        if self_hit {
            self.state = GameState::GameOver;
            self.snake = None;
            self.fruit = None;
        } else {
            if fruit_hit {
                self.score = self.score + 1;
            }
            if need_respawn {
                self.fruit = spawn(&g, &occ, SPAWN_ATTEMPT_LIMIT);
            } else {
                // The fruit stands where it was; the snake's move cannot
                // have covered it, since only the head claims a fresh cell
                // and the head did not land on the fruit.
                proof {
                    match old(self).fruit {
                        Some(f) => {
                            crate::snake::lemma_advance_keeps_clear(
                                old(self).snake_model().directed_by(old(self).pending_direction),
                                old(self).grid,
                                f,
                            );
                        },
                        None => {},
                    }
                }
            }
        }
    }
}

} // verus!
