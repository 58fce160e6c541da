//! The snake: an ordered sequence of occupied cells, tail first, head last.
//!
//! The snake owns its growth and shrink logic; whether a move is legal is
//! decided by the game state machine, which sees the board and the apple.

use vstd::prelude::*;
use crate::geometry::{Pos, Direction, BoardConfig};
use crate::geometry::lemma_interior_not_wall;
use crate::board::{Board, CellState};

verus! {

broadcast use lemma_interior_not_wall;

/// The candidate cell one step from `p` in direction `d`.
///
/// On an axis whose wrap flag is set, stepping past the playable interior
/// reappears on the opposite interior column (or row); otherwise the step is a
/// plain offset of one cell, which may land on a border cell.
pub open spec fn spec_next(cfg: BoardConfig, p: Pos, d: Direction) -> Pos {
    match d {
        Direction::Right => if cfg.wrap_horizontal && p.x == cfg.width - 2 {
            Pos { x: 1, y: p.y }
        } else {
            Pos { x: (p.x + 1) as u16, y: p.y }
        },
        Direction::Left => if cfg.wrap_horizontal && p.x == 1 {
            Pos { x: (cfg.width - 2) as u16, y: p.y }
        } else {
            Pos { x: (p.x - 1) as u16, y: p.y }
        },
        Direction::Down => if cfg.wrap_vertical && p.y == cfg.height - 2 {
            Pos { x: p.x, y: 1 }
        } else {
            Pos { x: p.x, y: (p.y + 1) as u16 }
        },
        Direction::Up => if cfg.wrap_vertical && p.y == 1 {
            Pos { x: p.x, y: (cfg.height - 2) as u16 }
        } else {
            Pos { x: p.x, y: (p.y - 1) as u16 }
        },
    }
}

/// The snake's body, tail at the front of the vector, head at the back.
pub struct Snake {
    body: Vec<Pos>,
}

impl View for Snake {
    type V = Seq<Pos>;

    closed spec fn view(&self) -> Seq<Pos> {
        self.body@
    }
}

impl Snake {
    /// A valid snake on a board of configuration `cfg`: at least the initial
    /// two segments long, entirely inside the playable interior, and no cell
    /// occupied twice.
    pub open spec fn wf(self, cfg: BoardConfig) -> bool {
        self@.len() >= 2 && (forall|i: int|
            0 <= i < self@.len() ==> cfg.interior(#[trigger] self@[i])) && (forall|i: int, j: int|
            0 <= i < j < self@.len() ==> self@[i] != self@[j])
    }

    /// The head: the cell of visual motion, last of the sequence.
    pub open spec fn head(self) -> Pos {
        self@.last()
    }

    /// The tail: the cell that vacates on an ordinary move, first of the
    /// sequence.
    pub open spec fn tail(self) -> Pos {
        self@[0]
    }

    pub open spec fn occupies(self, p: Pos) -> bool {
        self@.contains(p)
    }

    /// The initial two-segment snake.
    pub fn new(tail: Pos, head: Pos) -> (s: Snake)
        ensures
            s@ == seq![tail, head],
    {
        let mut body: Vec<Pos> = Vec::new();
        body.push(tail);
        body.push(head);
        proof {
            assert(body@ =~= seq![tail, head]);
        }
        Snake { body }
    }

    pub fn len(&self) -> (n: usize)
        ensures
            n == self@.len(),
    {
        self.body.len()
    }

    pub fn head_position(&self) -> (p: Pos)
        requires
            self@.len() > 0,
        ensures
            p == self.head(),
    {
        self.body[self.body.len() - 1]
    }

    pub fn tail_position(&self) -> (p: Pos)
        requires
            self@.len() > 0,
        ensures
            p == self.tail(),
    {
        self.body[0]
    }

    /// Whether the snake occupies `p`.
    pub fn contains(&self, p: Pos) -> (r: bool)
        ensures
            r == self.occupies(p),
    {
        let mut k: usize = 0;
        while k < self.body.len()
            invariant
                k <= self.body.len(),
                forall|i: int| 0 <= i < k ==> self.body@[i] != p,
            decreases self.body.len() - k,
        {
            if self.body[k] == p {
                return true;
            }
            k = k + 1;
        }
        false
    }

    /// The candidate next head cell for a move in direction `d`.
    pub fn compute_next(&self, d: Direction, cfg: BoardConfig) -> (p: Pos)
        requires
            cfg.wf(),
            self@.len() > 0,
            cfg.interior(self.head()),
        ensures
            p == spec_next(cfg, self.head(), d),
            cfg.in_bounds(p),
    {
        let head = self.head_position();
        let x = head.x;
        let y = head.y;
        match d {
            Direction::Right => if cfg.wrap_horizontal && x == cfg.width - 2 {
                Pos { x: 1, y }
            } else {
                Pos { x: x + 1, y }
            },
            Direction::Left => if cfg.wrap_horizontal && x == 1 {
                Pos { x: cfg.width - 2, y }
            } else {
                Pos { x: x - 1, y }
            },
            Direction::Down => if cfg.wrap_vertical && y == cfg.height - 2 {
                Pos { x, y: 1 }
            } else {
                Pos { x, y: y + 1 }
            },
            Direction::Up => if cfg.wrap_vertical && y == 1 {
                Pos { x, y: cfg.height - 2 }
            } else {
                Pos { x, y: y - 1 }
            },
        }
    }

    /// Pushes `next` as the new head on the board and in the sequence; on an
    /// ordinary (non-growing) move the tail vacates and its cell is marked
    /// empty. The former head cell is re-marked as body.
    ///
    /// Legality is the caller's burden: `next` must be a free cell, or the
    /// vacating tail cell of a non-growing move.
    pub fn advance(&mut self, board: &mut Board, next: Pos, grew: bool)
        requires
            old(board).wf(),
            old(self).wf(old(board).config()),
            old(board).config().interior(next),
            !old(self).occupies(next) || (!grew && next == old(self).tail()),
        ensures
            final(board).wf(),
            final(board).config() == old(board).config(),
            final(self).wf(old(board).config()),
            grew ==> final(self)@ == old(self)@.push(next),
            !grew ==> final(self)@ == old(self)@.subrange(1, old(self)@.len() as int).push(next),
            final(self)@.len() == old(self)@.len() + (if grew { 1int } else { 0int }),
            final(self).head() == next,
            forall|q: Pos| #![auto]
                old(board).config().in_bounds(q) ==> final(board).cell_at(q) == (if q == next {
                    CellState::SnakeHead
                } else if q == old(self).head() {
                    CellState::SnakeBody
                } else if !grew && q == old(self).tail() {
                    CellState::Empty
                } else {
                    old(board).cell_at(q)
                }),
            forall|q: Pos| #![auto]
                old(board).config().in_bounds(q) ==> final(board).is_dirty(q) == (
                old(board).is_dirty(q) || q == next || q == old(self).head() || (!grew && q == old(
                    self,
                ).tail())),
    {
        let ghost cfg = old(board).config();
        let head = self.head_position();
        proof {
            assert(cfg.interior(old(self)@[old(self)@.len() - 1]));
            assert(cfg.interior(old(self)@[0]));
            if old(self).occupies(next) {
                assert(next == old(self).tail());
            } else {
                assert(old(self)@.contains(old(self)@[old(self)@.len() - 1]));
            }
            assert(old(self).head() != next);
        }
        if !grew {
            let t = self.body.remove(0);
            board.mark(t, CellState::Empty);
        }
        board.mark(head, CellState::SnakeBody);
        board.mark(next, CellState::SnakeHead);
        self.body.push(next);
        proof {
            if grew {
                assert(self.body@ =~= old(self)@.push(next));
            } else {
                assert(self.body@ =~= old(self)@.subrange(1, old(self)@.len() as int).push(next));
            }
            lemma_body_after_advance(*old(self), next, grew, cfg);
        }
    }
}

/// One step of motion keeps the body sound: the length grows by one exactly
/// when the snake fed and is unchanged otherwise, and no cell is ever occupied
/// twice — provided the new head cell is free, or is the tail cell that the
/// same non-growing step vacates.
pub proof fn lemma_body_after_advance(s: Snake, next: Pos, grew: bool, cfg: BoardConfig)
    requires
        cfg.wf(),
        s.wf(cfg),
        cfg.interior(next),
        !s.occupies(next) || (!grew && next == s.tail()),
    ensures
        ({
            let after = if grew {
                s@.push(next)
            } else {
                s@.subrange(1, s@.len() as int).push(next)
            };
            after.len() == s@.len() + (if grew { 1int } else { 0int })
            && (forall|i: int| 0 <= i < after.len() ==> cfg.interior(#[trigger] after[i]))
            && (forall|i: int, j: int| 0 <= i < j < after.len() ==> after[i] != after[j])
        }),
{
    let after = if grew {
        s@.push(next)
    } else {
        s@.subrange(1, s@.len() as int).push(next)
    };
    if grew {
        assert forall|i: int, j: int| 0 <= i < j < after.len() implies after[i] != after[j] by {
            if j == after.len() - 1 {
                assert(after[j] == next);
                assert(!s@.contains(next));
                assert(s@[i] == after[i]);
            }
        }
    } else {
        let trimmed = s@.subrange(1, s@.len() as int);
        assert forall|i: int, j: int| 0 <= i < j < after.len() implies after[i] != after[j] by {
            if j == after.len() - 1 {
                assert(after[j] == next);
                assert(after[i] == trimmed[i] && trimmed[i] == s@[i + 1]);
                if s.occupies(next) {
                    assert(next == s@[0]);
                }
                if !s.occupies(next) {
                    assert(s@.contains(s@[i + 1]));
                }
            } else {
                assert(after[i] == s@[i + 1] && after[j] == s@[j + 1]);
            }
        }
    }
}

/// The wrap-around law: with wrap enabled on an axis, a head on the last
/// interior column (or row) stepping outward reappears on the first interior
/// column (or row) of the same row (or column), and symmetrically.
pub proof fn lemma_wrap_around(cfg: BoardConfig, p: Pos)
    requires
        cfg.wf(),
        cfg.interior(p),
    ensures
        cfg.wrap_horizontal && p.x == cfg.width - 2 ==> spec_next(cfg, p, Direction::Right) == (Pos {
            x: 1,
            y: p.y,
        }),
        cfg.wrap_horizontal && p.x == 1 ==> spec_next(cfg, p, Direction::Left) == (Pos {
            x: (cfg.width - 2) as u16,
            y: p.y,
        }),
        cfg.wrap_vertical && p.y == cfg.height - 2 ==> spec_next(cfg, p, Direction::Down) == (Pos {
            x: p.x,
            y: 1,
        }),
        cfg.wrap_vertical && p.y == 1 ==> spec_next(cfg, p, Direction::Up) == (Pos {
            x: p.x,
            y: (cfg.height - 2) as u16,
        }),
{
}

} // verus!
