//! The per-tick state machine: input handling, movement, collision, feeding,
//! and the session states around them.
//!
//! The driving loop outside the engine drains decoded keys into
//! [`Game::handle_key`], calls [`Game::tick`] once per frame while playing,
//! and reinitializes through [`Game::restart`] when the restart key was seen.

use vstd::prelude::*;
use crate::geometry::{Pos, Direction, BoardConfig, opposite};
use crate::geometry::lemma_interior_not_wall;
use crate::board::{Board, CellState, base_cell};
use crate::snake::{Snake, spec_next};
use crate::apple::{move_apple, replace_apple, nudge_target, placed_cells};

verus! {

broadcast use lemma_interior_not_wall;

/// The session states: a running game, the death screen, the transient wish
/// to start over, and the wish to leave.
#[derive(Clone, Copy, PartialEq, Eq, Structural, Debug)]
pub enum GameStatus {
    Playing,
    GameOver,
    Restarting,
    Quit,
}

/// A decoded terminal key, as the platform layer hands it in.
#[derive(Clone, Copy, PartialEq, Eq, Structural, Debug)]
pub enum InputKey {
    Plain(char),
    Ctrl(char),
    Alt(char),
    Other,
}

/// The movement direction a key asks for while playing.
pub open spec fn key_direction(k: InputKey) -> Option<Direction> {
    match k {
        InputKey::Plain(c) => if c == 'w' {
            Some(Direction::Up)
        } else if c == 's' {
            Some(Direction::Down)
        } else if c == 'a' {
            Some(Direction::Left)
        } else if c == 'd' {
            Some(Direction::Right)
        } else {
            None
        },
        _ => None,
    }
}

/// The apple nudge a key asks for while playing (a development aid).
pub open spec fn key_nudge(k: InputKey) -> Option<Direction> {
    match k {
        InputKey::Plain(c) => if c == 'i' {
            Some(Direction::Up)
        } else if c == 'k' {
            Some(Direction::Down)
        } else if c == 'j' {
            Some(Direction::Left)
        } else if c == 'l' {
            Some(Direction::Right)
        } else {
            None
        },
        _ => None,
    }
}

/// The keys that abandon a running game.
pub open spec fn is_quit_key(k: InputKey) -> bool {
    k == InputKey::Ctrl('q') || k == InputKey::Alt('q')
}

/// The key that asks for a fresh game from the death screen.
pub open spec fn is_restart_key(k: InputKey) -> bool {
    k == InputKey::Plain('r')
}

/// The keys that leave the program from the death screen.
pub open spec fn is_end_key(k: InputKey) -> bool {
    k == InputKey::Plain('q') || k == InputKey::Alt('q')
}

/// Head cell of a fresh snake: the board's center.
pub open spec fn start_head(cfg: BoardConfig) -> Pos {
    Pos { x: (cfg.width / 2) as u16, y: (cfg.height / 2) as u16 }
}

/// Tail cell of a fresh snake: one cell behind the head, opposite the initial
/// direction of travel (which is rightward).
pub open spec fn start_tail(cfg: BoardConfig) -> Pos {
    Pos { x: (cfg.width / 2 - 1) as u16, y: (cfg.height / 2) as u16 }
}

/// The whole game state for one session.
pub struct Game {
    pub board: Board,
    pub snake: Snake,
    pub apple: Option<Pos>,
    pub direction: Direction,
    pub old_direction: Direction,
    pub status: GameStatus,
}

impl Game {
    pub open spec fn cfg(self) -> BoardConfig {
        self.board.config()
    }

    /// What a cell must show given where the snake and the apple are: the
    /// snake covers the apple, the apple covers the base board.
    pub open spec fn expected_cell(self, p: Pos) -> CellState {
        if self.snake.head() == p {
            CellState::SnakeHead
        } else if self.snake.occupies(p) {
            CellState::SnakeBody
        } else if self.apple == Some(p) {
            CellState::Apple
        } else {
            base_cell(self.cfg(), p)
        }
    }

    /// The game invariant: sound board and snake, an interior apple, and a
    /// board whose every cell shows exactly the expected state.
    pub open spec fn wf(self) -> bool {
        &&& self.board.wf()
        &&& self.snake.wf(self.cfg())
        &&& self.apple is Some ==> self.cfg().interior(self.apple->0)
        &&& forall|p: Pos|
            self.cfg().in_bounds(p) ==> #[trigger] self.board.cell_at(p) == self.expected_cell(p)
    }

    /// The cell the head would enter this tick.
    pub open spec fn candidate(self) -> Pos {
        spec_next(self.cfg(), self.snake.head(), self.direction)
    }

    pub open spec fn candidate_cell(self) -> CellState {
        self.board.cell_at(self.candidate())
    }

    /// A candidate cell that ends the game: a wall, the head itself (a
    /// degenerate one-column wrap), or body that is not the vacating tail.
    /// Moving into the tail cell of a non-growing move is legal — the tail
    /// leaves the cell on the same tick.
    pub open spec fn candidate_fatal(self) -> bool {
        ||| self.candidate_cell() == CellState::Wall
        ||| self.candidate_cell() == CellState::SnakeHead
        ||| (self.candidate_cell() == CellState::SnakeBody && self.candidate() != self.snake.tail())
    }

    /// Whether this tick's move feeds the snake.
    pub open spec fn candidate_eats(self) -> bool {
        self.candidate_cell() == CellState::Apple
    }

    /// A fresh session without an apple yet: full base board, the two-segment
    /// snake at the center heading right, every cell dirty so the first drain
    /// paints everything.
    pub fn new(cfg: BoardConfig) -> (g: Game)
        requires
            cfg.wf(),
        ensures
            g.wf(),
            g.cfg() == cfg,
            g.status == GameStatus::Playing,
            g.snake@ == seq![start_tail(cfg), start_head(cfg)],
            g.apple is None,
            g.direction == Direction::Right,
            g.old_direction == Direction::Right,
            forall|p: Pos| cfg.in_bounds(p) ==> #[trigger] g.board.is_dirty(p),
    {
        let mut board = Board::new(cfg);
        board.draw_board();
        let hx = cfg.width / 2;
        let hy = cfg.height / 2;
        let head = Pos { x: hx, y: hy };
        let tail = Pos { x: hx - 1, y: hy };
        proof {
            assert(cfg.interior(head));
            assert(cfg.interior(tail));
        }
        let snake = Snake::new(tail, head);
        board.mark(tail, CellState::SnakeBody);
        board.mark(head, CellState::SnakeHead);
        let g = Game {
            board,
            snake,
            apple: None,
            direction: Direction::Right,
            old_direction: Direction::Right,
            status: GameStatus::Playing,
        };
        proof {
            assert(g.snake@[0] == tail && g.snake@[1] == head);
            assert(g.snake.head() == head);
            assert(g.snake.occupies(tail));
            assert forall|p: Pos| cfg.in_bounds(p) implies #[trigger] g.board.cell_at(p)
                == g.expected_cell(p) by {
                if p != head && p != tail {
                    assert(!g.snake.occupies(p));
                }
            }
        }
        g
    }

    /// A fresh session with its first apple placed.
    pub fn start(cfg: BoardConfig, rng: &mut rand::rngs::ThreadRng) -> (g: Game)
        requires
            cfg.wf(),
        ensures
            g.wf(),
            g.cfg() == cfg,
            g.status == GameStatus::Playing,
            g.snake@ == seq![start_tail(cfg), start_head(cfg)],
            g.apple is Some,
            cfg.interior(g.apple->0),
            g.direction == Direction::Right,
            g.old_direction == Direction::Right,
            forall|p: Pos| cfg.in_bounds(p) ==> #[trigger] g.board.is_dirty(p),
    {
        let mut g = Game::new(cfg);
        let ghost pre = g;
        replace_apple(&mut g.board, &mut g.apple, rng);
        proof {
            lemma_wf_after_apple_change(pre, g, g.apple->0);
        }
        g
    }

    /// Tears the session down and starts over: fresh board, fresh snake,
    /// fresh apple, back to `Playing`.
    pub fn restart(&mut self, rng: &mut rand::rngs::ThreadRng)
        requires
            old(self).wf(),
        ensures
            final(self).wf(),
            final(self).cfg() == old(self).cfg(),
            final(self).status == GameStatus::Playing,
            final(self).snake@ == seq![start_tail(old(self).cfg()), start_head(old(self).cfg())],
            final(self).apple is Some,
            old(self).cfg().interior(final(self).apple->0),
            final(self).direction == Direction::Right,
            final(self).old_direction == Direction::Right,
            forall|p: Pos|
                old(self).cfg().in_bounds(p) ==> #[trigger] final(self).board.is_dirty(p),
    {
        let cfg = self.board.get_config();
        *self = Game::start(cfg, rng);
    }

    /// Applies one decoded key.
    ///
    /// While playing: the movement keys latch a new direction unless it would
    /// reverse the previous tick's travel; the nudge keys move the apple; the
    /// abandon keys end the game. On the death screen: the restart key asks
    /// for a fresh session and the end keys leave. Everything else is
    /// ignored.
    pub fn handle_key(&mut self, k: InputKey)
        requires
            old(self).wf(),
        ensures
            final(self).wf(),
            final(self).cfg() == old(self).cfg(),
            old(self).status == GameStatus::Playing ==> {
                &&& (key_direction(k) matches Some(d) ==> *final(self) == (Game {
                    direction: if old(self).old_direction == opposite(d) {
                        old(self).direction
                    } else {
                        d
                    },
                    ..*old(self)
                }))
                &&& (key_nudge(k) matches Some(d) ==> {
                    &&& final(self).status == old(self).status
                    &&& final(self).direction == old(self).direction
                    &&& final(self).old_direction == old(self).old_direction
                    &&& final(self).snake == old(self).snake
                    &&& (old(self).apple is None ==> final(self).apple is None && final(self).board.cells() == old(self).board.cells())
                    &&& (old(self).apple matches Some(a) ==> final(self).apple == Some(
                        nudge_target(old(self).cfg(), a, d),
                    ) && final(self).board.cells() == placed_cells(
                        old(self).board,
                        old(self).apple,
                        nudge_target(old(self).cfg(), a, d),
                    ))
                })
                &&& (is_quit_key(k) ==> *final(self) == (Game {
                    status: GameStatus::GameOver,
                    ..*old(self)
                }))
                &&& (key_direction(k) is None && key_nudge(k) is None && !is_quit_key(k)
                    ==> *final(self) == *old(self))
            },
            old(self).status == GameStatus::GameOver ==> {
                &&& (is_restart_key(k) ==> *final(self) == (Game {
                    status: GameStatus::Restarting,
                    ..*old(self)
                }))
                &&& (is_end_key(k) ==> *final(self) == (Game { status: GameStatus::Quit, ..*old(self) }))
                &&& (!is_restart_key(k) && !is_end_key(k) ==> *final(self) == *old(self))
            },
            old(self).status == GameStatus::Restarting || old(self).status == GameStatus::Quit
                ==> *final(self) == *old(self),
            forall|q: Pos| #![auto]
                old(self).cfg().in_bounds(q) && old(self).board.is_dirty(q) ==> final(self).board.is_dirty(q),
            forall|q: Pos| #![auto]
                old(self).cfg().in_bounds(q) && final(self).board.cell_at(q) != old(
                    self,
                ).board.cell_at(q) ==> final(self).board.is_dirty(q),
    {
        match self.status {
            GameStatus::Playing => {
                match k {
                    InputKey::Plain(c) => {
                        if c == 'w' {
                            if self.old_direction != Direction::Down {
                                self.direction = Direction::Up;
                            }
                        } else if c == 's' {
                            if self.old_direction != Direction::Up {
                                self.direction = Direction::Down;
                            }
                        } else if c == 'a' {
                            if self.old_direction != Direction::Right {
                                self.direction = Direction::Left;
                            }
                        } else if c == 'd' {
                            if self.old_direction != Direction::Left {
                                self.direction = Direction::Right;
                            }
                        } else if c == 'i' {
                            self.nudge_apple(Direction::Up);
                        } else if c == 'k' {
                            self.nudge_apple(Direction::Down);
                        } else if c == 'j' {
                            self.nudge_apple(Direction::Left);
                        } else if c == 'l' {
                            self.nudge_apple(Direction::Right);
                        }
                    },
                    InputKey::Ctrl(c) => {
                        if c == 'q' {
                            self.status = GameStatus::GameOver;
                        }
                    },
                    InputKey::Alt(c) => {
                        if c == 'q' {
                            self.status = GameStatus::GameOver;
                        }
                    },
                    InputKey::Other => {},
                }
            },
            GameStatus::GameOver => {
                match k {
                    InputKey::Plain(c) => {
                        if c == 'r' {
                            self.status = GameStatus::Restarting;
                        } else if c == 'q' {
                            self.status = GameStatus::Quit;
                        }
                    },
                    InputKey::Alt(c) => {
                        if c == 'q' {
                            self.status = GameStatus::Quit;
                        }
                    },
                    _ => {},
                }
            },
            _ => {},
        }
    }

    /// Moves the apple one cell for the development nudge keys.
    fn nudge_apple(&mut self, d: Direction)
        requires
            old(self).wf(),
        ensures
            final(self).wf(),
            final(self).cfg() == old(self).cfg(),
            final(self).status == old(self).status,
            final(self).direction == old(self).direction,
            final(self).old_direction == old(self).old_direction,
            final(self).snake == old(self).snake,
            old(self).apple is None ==> final(self).apple is None && final(self).board.cells()
                == old(self).board.cells(),
            old(self).apple matches Some(a) ==> final(self).apple == Some(
                nudge_target(old(self).cfg(), a, d),
            ) && final(self).board.cells() == placed_cells(
                old(self).board,
                old(self).apple,
                nudge_target(old(self).cfg(), a, d),
            ),
            forall|q: Pos| #![auto]
                old(self).cfg().in_bounds(q) && old(self).board.is_dirty(q) ==> final(self).board.is_dirty(q),
            forall|q: Pos| #![auto]
                old(self).cfg().in_bounds(q) && final(self).board.cell_at(q) != old(
                    self,
                ).board.cell_at(q) ==> final(self).board.is_dirty(q),
    {
        let ghost pre = *self;
        move_apple(&mut self.board, &mut self.apple, d);
        proof {
            if pre.apple is Some {
                lemma_wf_after_apple_change(pre, *self, nudge_target(pre.cfg(), pre.apple->0, d));
            }
        }
    }

    /// One tick of play. Away from `Playing` this is a no-op.
    ///
    /// While playing: the head's candidate cell decides. A wall or non-tail
    /// body cell ends the game with everything else untouched; the apple cell
    /// grows the snake by one and relocates the apple somewhere new; any
    /// other cell — the vacating tail included — is an ordinary move. After a
    /// survived move the travel direction is latched for the reversal rule.
    pub fn tick(&mut self, rng: &mut rand::rngs::ThreadRng)
        requires
            old(self).wf(),
        ensures
            final(self).wf(),
            final(self).cfg() == old(self).cfg(),
            old(self).status != GameStatus::Playing ==> *final(self) == *old(self),
            old(self).status == GameStatus::Playing ==> {
                &&& (old(self).candidate_fatal() ==> *final(self) == (Game {
                    status: GameStatus::GameOver,
                    ..*old(self)
                }))
                &&& (!old(self).candidate_fatal() ==> final(self).status == GameStatus::Playing
                    && final(self).direction == old(self).direction && final(self).old_direction
                    == old(self).direction)
                &&& (!old(self).candidate_fatal() && old(self).candidate_eats() ==> final(self).snake@ == old(self).snake@.push(old(self).candidate()) && final(self).apple
                    is Some && final(self).apple != old(self).apple && old(self).cfg().interior(
                    final(self).apple->0,
                ))
                &&& (!old(self).candidate_fatal() && !old(self).candidate_eats() ==> final(self).snake@ == old(self).snake@.subrange(1, old(self).snake@.len() as int).push(
                    old(self).candidate(),
                ) && final(self).apple == old(self).apple)
            },
            forall|q: Pos| #![auto]
                old(self).cfg().in_bounds(q) && old(self).board.is_dirty(q) ==> final(self).board.is_dirty(q),
            forall|q: Pos| #![auto]
                old(self).cfg().in_bounds(q) && final(self).board.cell_at(q) != old(
                    self,
                ).board.cell_at(q) ==> final(self).board.is_dirty(q),
    {
        match self.status {
            GameStatus::Playing => {},
            _ => { return ; },
        }
        let ghost g0 = *self;
        let cfg = self.board.get_config();
        proof {
            assert(cfg.interior(g0.snake@[g0.snake@.len() - 1]));
        }
        let next = self.snake.compute_next(self.direction, cfg);
        let cell = self.board.get(next);
        let tail = self.snake.tail_position();
        proof {
            assert(cell == g0.expected_cell(next));
        }
        let fatal = match cell {
            CellState::Wall => true,
            CellState::SnakeHead => true,
            CellState::SnakeBody => next != tail,
            _ => false,
        };
        if fatal {
            self.status = GameStatus::GameOver;
            return ;
        }
        let grew = cell == CellState::Apple;
        proof {
            lemma_candidate_interior(g0, next, cell);
            if g0.snake.occupies(next) {
                assert(g0.expected_cell(next) == CellState::SnakeHead || g0.expected_cell(next)
                    == CellState::SnakeBody);
                assert(!grew && next == g0.snake.tail());
            }
        }
        let head = self.snake.head_position();
        self.snake.advance(&mut self.board, next, grew);
        let ghost mid = *self;
        if grew {
            proof {
                assert(g0.apple == Some(next));
            }
            replace_apple(&mut self.board, &mut self.apple, rng);
        } else {
            if next != tail {
                let restore = match self.apple {
                    Some(a) => a == tail,
                    None => false,
                };
                if restore {
                    self.board.mark(tail, CellState::Apple);
                }
            }
        }
        self.old_direction = self.direction;
        proof {
            lemma_wf_after_tick(g0, mid, *self, next, grew, head, tail);
        }
    }
}

/// A non-fatal candidate cell is interior: border cells on a closed axis are
/// walls, and a wrapped axis never steps onto its border.
proof fn lemma_candidate_interior(g: Game, next: Pos, cell: CellState)
    requires
        g.wf(),
        next == g.candidate(),
        cell == g.expected_cell(next),
        cell != CellState::Wall,
    ensures
        g.cfg().interior(next),
{
    let cfg = g.cfg();
    let s = g.snake@;
    assert(cfg.interior(s[s.len() - 1]));
    let head = g.snake.head();
    if g.snake.head() == next {
        assert(cfg.interior(next));
    } else if g.snake.occupies(next) {
        let k = choose|k: int| 0 <= k < s.len() && s[k] == next;
        assert(cfg.interior(s[k]));
    } else if g.apple == Some(next) {
        assert(cfg.interior(next));
    } else {
        assert(base_cell(cfg, next) != CellState::Wall);
        assert(!cfg.is_wall(next));
        assert(cfg.interior(head));
        if !cfg.interior(next) {
            assert(cfg.in_bounds(next));
            assert(false);
        }
    }
}

/// Re-establishes the board/state agreement after the apple alone moved from
/// `pre.apple` to `target` through the placed-cells transform.
proof fn lemma_wf_after_apple_change(pre: Game, post: Game, target: Pos)
    requires
        pre.wf(),
        pre.cfg().interior(target),
        post.board.wf(),
        post.board.config() == pre.cfg(),
        post.snake == pre.snake,
        post.apple == Some(target),
        post.board.cells() == placed_cells(pre.board, pre.apple, target),
    ensures
        post.wf(),
{
    let cfg = pre.cfg();
    assert forall|p: Pos| cfg.in_bounds(p) implies #[trigger] post.board.cell_at(p)
        == post.expected_cell(p) by {
        crate::geometry::lemma_idx_bounds(cfg, p);
        crate::geometry::lemma_idx_bounds(cfg, target);
        if pre.apple is Some {
            crate::geometry::lemma_idx_bounds(cfg, pre.apple->0);
        }
        if p != target {
            crate::geometry::lemma_idx_distinct(cfg, p, target);
        }
        if pre.apple is Some && p != pre.apple->0 {
            crate::geometry::lemma_idx_distinct(cfg, p, pre.apple->0);
        }
        assert(pre.board.cell_at(p) == pre.expected_cell(p));
        assert(pre.board.cell_at(target) == pre.expected_cell(target));
        if pre.apple is Some {
            assert(pre.board.cell_at(pre.apple->0) == pre.expected_cell(pre.apple->0));
        }
    }
}

/// Re-establishes the invariant at the end of a surviving tick, and the two
/// dirty-set guarantees: dirtiness is never lost, and every changed cell is
/// dirty.
proof fn lemma_wf_after_tick(
    g0: Game,
    mid: Game,
    g2: Game,
    next: Pos,
    grew: bool,
    head: Pos,
    tail: Pos,
)
    requires
        g0.wf(),
        g0.status == GameStatus::Playing,
        head == g0.snake.head(),
        tail == g0.snake.tail(),
        next == g0.candidate(),
        !g0.candidate_fatal(),
        grew == g0.candidate_eats(),
        g0.cfg().interior(next),
        // what advance left behind
        mid.board.wf(),
        mid.board.config() == g0.cfg(),
        mid.snake.wf(g0.cfg()),
        grew ==> mid.snake@ == g0.snake@.push(next),
        !grew ==> mid.snake@ == g0.snake@.subrange(1, g0.snake@.len() as int).push(next),
        mid.snake.head() == next,
        mid.apple == g0.apple,
        forall|q: Pos| #![auto]
            g0.cfg().in_bounds(q) ==> mid.board.cell_at(q) == (if q == next {
                CellState::SnakeHead
            } else if q == head {
                CellState::SnakeBody
            } else if !grew && q == tail {
                CellState::Empty
            } else {
                g0.board.cell_at(q)
            }),
        forall|q: Pos| #![auto]
            g0.cfg().in_bounds(q) ==> mid.board.is_dirty(q) == (g0.board.is_dirty(q) || q == next
                || q == head || (!grew && q == tail)),
        // what the apple stage left behind
        g2.snake == mid.snake,
        g2.board.wf(),
        g2.board.config() == g0.cfg(),
        grew ==> g2.apple is Some && g0.cfg().interior(g2.apple->0) && g2.apple->0 != next
            && g2.board.cells() == placed_cells(mid.board, mid.apple, g2.apple->0),
        !grew && next != tail && mid.apple == Some(tail) ==> g2.apple == mid.apple
            && g2.board.cells() == mid.board.cells().update(g0.cfg().idx(tail), CellState::Apple)
            && g2.board.dirty() == mid.board.dirty().update(g0.cfg().idx(tail), true),
        !grew && !(next != tail && mid.apple == Some(tail)) ==> g2.apple == mid.apple
            && g2.board.cells() == mid.board.cells() && g2.board.dirty() == mid.board.dirty(),
        grew ==> (forall|q: Pos| #![auto]
            g0.cfg().in_bounds(q) && mid.board.is_dirty(q) ==> g2.board.is_dirty(q)),
        grew ==> (forall|q: Pos| #![auto]
            g0.cfg().in_bounds(q) && g2.board.cell_at(q) != mid.board.cell_at(q)
                ==> g2.board.is_dirty(q)),
    ensures
        g2.wf(),
        forall|q: Pos| #![auto]
            g0.cfg().in_bounds(q) && g0.board.is_dirty(q) ==> g2.board.is_dirty(q),
        forall|q: Pos| #![auto]
            g0.cfg().in_bounds(q) && g2.board.cell_at(q) != g0.board.cell_at(q)
                ==> g2.board.is_dirty(q),
{
    let cfg = g0.cfg();
    let s0 = g0.snake@;
    let s2 = g2.snake@;
    assert(cfg.interior(s0[0]));
    assert(cfg.interior(s0[s0.len() - 1]));
    assert(head != next);
    assert(g0.board.cell_at(next) == g0.expected_cell(next));

    // Occupancy of the new body, pointwise.
    assert forall|q: Pos| true implies g2.snake.occupies(q) == (if !grew {
        q == next || (g0.snake.occupies(q) && q != tail)
    } else {
        q == next || g0.snake.occupies(q)
    }) by {
        if grew {
            if g2.snake.occupies(q) {
                let k = choose|k: int| 0 <= k < s2.len() && s2[k] == q;
                if k < s0.len() {
                    assert(s0[k] == q);
                }
            }
            if g0.snake.occupies(q) {
                let k = choose|k: int| 0 <= k < s0.len() && s0[k] == q;
                assert(s2[k] == q);
            }
        } else {
            if g2.snake.occupies(q) && q != next {
                let k = choose|k: int| 0 <= k < s2.len() && s2[k] == q;
                assert(s0[k + 1] == q);
                if q == tail {
                    assert(s0[0] == s0[k + 1]);
                    assert(false);
                }
            }
            if g0.snake.occupies(q) && q != tail {
                let k = choose|k: int| 0 <= k < s0.len() && s0[k] == q;
                assert(k != 0);
                assert(s2[k - 1] == q);
            }
        }
    }

    if !grew {
        // tail is no longer occupied unless the head chased it
        if next != tail {
            assert(!g2.snake.occupies(tail));
        }
    }

    assert forall|p: Pos| cfg.in_bounds(p) implies #[trigger] g2.board.cell_at(p)
        == g2.expected_cell(p) by {
        assert(g0.board.cell_at(p) == g0.expected_cell(p));
        if grew {
            let t2 = g2.apple->0;
            crate::geometry::lemma_idx_bounds(cfg, p);
            crate::geometry::lemma_idx_bounds(cfg, t2);
            crate::geometry::lemma_idx_bounds(cfg, next);
            if p != t2 {
                crate::geometry::lemma_idx_distinct(cfg, p, t2);
            }
            if p != next {
                crate::geometry::lemma_idx_distinct(cfg, p, next);
            }
            assert(g0.board.cell_at(t2) == g0.expected_cell(t2));
            assert(mid.apple == Some(next));
        } else {
            if next != tail && mid.apple == Some(tail) {
                crate::geometry::lemma_idx_bounds(cfg, p);
                crate::geometry::lemma_idx_bounds(cfg, tail);
                if p != tail {
                    crate::geometry::lemma_idx_distinct(cfg, p, tail);
                }
            }
        }
    }

    assert forall|q: Pos|
        cfg.in_bounds(q) && g0.board.is_dirty(q) implies #[trigger] g2.board.is_dirty(q) by {
        assert(mid.board.is_dirty(q));
        if !grew {
            crate::geometry::lemma_idx_bounds(cfg, q);
            if next != tail && mid.apple == Some(tail) {
                crate::geometry::lemma_idx_bounds(cfg, tail);
                if q != tail {
                    crate::geometry::lemma_idx_distinct(cfg, q, tail);
                }
            }
        }
    }

    assert forall|q: Pos|
        cfg.in_bounds(q) && g2.board.cell_at(q) != g0.board.cell_at(q) implies #[trigger] g2.board.is_dirty(
        q,
    ) by {
        crate::geometry::lemma_idx_bounds(cfg, q);
        if g2.board.cell_at(q) != mid.board.cell_at(q) {
            if grew {
            } else {
                if next != tail && mid.apple == Some(tail) {
                    crate::geometry::lemma_idx_bounds(cfg, tail);
                    if q != tail {
                        crate::geometry::lemma_idx_distinct(cfg, q, tail);
                        assert(false);
                    }
                }
            }
        } else {
            assert(mid.board.cell_at(q) != g0.board.cell_at(q));
            assert(mid.board.is_dirty(q));
            if !grew {
                if next != tail && mid.apple == Some(tail) {
                    crate::geometry::lemma_idx_bounds(cfg, tail);
                    if q != tail {
                        crate::geometry::lemma_idx_distinct(cfg, q, tail);
                    }
                }
            }
        }
    }
}

} // verus!
