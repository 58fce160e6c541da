//! Coordinates, directions and the arena configuration.
//!
//! A board cell is addressed by a `Pos` (column `x`, row `y`); the backing
//! store is row-major, so a position maps to the flat index `x + y * width`.

use vstd::prelude::*;
use vstd::arithmetic::div_mod::lemma_fundamental_div_mod;
use vstd::arithmetic::div_mod::lemma_fundamental_div_mod_converse;

verus! {

/// A cell position on the board: column `x`, row `y`.
#[derive(Clone, Copy, PartialEq, Eq, Structural, Debug)]
pub struct Pos {
    pub x: u16,
    pub y: u16,
}

/// A movement direction on the grid.
#[derive(Clone, Copy, PartialEq, Eq, Structural, Debug)]
pub enum Direction {
    Right,
    Up,
    Left,
    Down,
}

/// The direction that undoes `d`; a snake may not reverse into itself.
pub open spec fn opposite(d: Direction) -> Direction {
    match d {
        Direction::Right => Direction::Left,
        Direction::Left => Direction::Right,
        Direction::Up => Direction::Down,
        Direction::Down => Direction::Up,
    }
}

/// Dimensions of the arena and which axes wrap around.
///
/// With a wrap flag off, the matching border rows or columns are walls and
/// running into them ends the game; with it on, movement links the opposite
/// interior columns (or rows) of the playable area instead, and the matching
/// border cells are left empty.
#[derive(Clone, Copy, PartialEq, Eq, Structural, Debug)]
pub struct BoardConfig {
    pub width: u16,
    pub height: u16,
    pub wrap_horizontal: bool,
    pub wrap_vertical: bool,
}

impl BoardConfig {
    /// A usable arena: wide enough for the initial two-cell snake, and small
    /// enough that every flat index fits in a `u16`.
    pub open spec fn wf(self) -> bool {
        4 <= self.width && 3 <= self.height && self.width * self.height <= u16::MAX
    }

    /// Number of cells on the board.
    pub open spec fn area(self) -> int {
        self.width * self.height
    }

    pub open spec fn in_bounds(self, p: Pos) -> bool {
        p.x < self.width && p.y < self.height
    }

    /// The playable interior: everything but the border rows and columns.
    pub open spec fn interior(self, p: Pos) -> bool {
        1 <= p.x <= self.width - 2 && 1 <= p.y <= self.height - 2
    }

    /// Flat row-major index of a position.
    pub open spec fn idx(self, p: Pos) -> int {
        p.x + p.y * self.width
    }

    /// A border cell that is a wall: wrap on an axis removes the walls that
    /// would close that axis off.
    pub open spec fn is_wall(self, p: Pos) -> bool {
        (!self.wrap_horizontal && (p.x == 0 || p.x == self.width - 1))
        || (!self.wrap_vertical && (p.y == 0 || p.y == self.height - 1))
    }

    /// The position a flat index denotes.
    pub open spec fn pos_at(self, i: int) -> Pos {
        Pos { x: (i % (self.width as int)) as u16, y: (i / (self.width as int)) as u16 }
    }
}

/// An interior cell is never a wall cell.
pub broadcast proof fn lemma_interior_not_wall(cfg: BoardConfig, p: Pos)
    requires
        cfg.wf(),
    ensures
        #[trigger] cfg.interior(p) ==> !cfg.is_wall(p) && cfg.in_bounds(p),
{
}

/// Every in-bounds position has a flat index inside the board's cell array.
pub broadcast proof fn lemma_idx_bounds(cfg: BoardConfig, p: Pos)
    requires
        cfg.wf(),
        cfg.in_bounds(p),
    ensures
        0 <= #[trigger] cfg.idx(p) < cfg.area(),
{
    assert(p.x + p.y * cfg.width < cfg.width * cfg.height) by (nonlinear_arith)
        requires
            p.x < cfg.width,
            p.y < cfg.height,
            cfg.width >= 1,
    {
    }
}

/// Distinct in-bounds positions have distinct flat indices.
pub broadcast proof fn lemma_idx_injective(cfg: BoardConfig, p: Pos, q: Pos)
    requires
        cfg.wf(),
        cfg.in_bounds(p),
        cfg.in_bounds(q),
        #[trigger] cfg.idx(p) == #[trigger] cfg.idx(q),
    ensures
        p == q,
{
    assert(p.x == q.x && p.y == q.y) by (nonlinear_arith)
        requires
            p.x < cfg.width,
            q.x < cfg.width,
            p.x + p.y * cfg.width == q.x + q.y * cfg.width,
            cfg.width >= 1,
    {
        lemma_fundamental_div_mod_converse(
            p.x + p.y * cfg.width,
            cfg.width as int,
            p.y as int,
            p.x as int,
        );
        lemma_fundamental_div_mod_converse(
            q.x + q.y * cfg.width,
            cfg.width as int,
            q.y as int,
            q.x as int,
        );
    }
}

/// Distinct in-bounds positions never collide in the backing store.
pub proof fn lemma_idx_distinct(cfg: BoardConfig, p: Pos, q: Pos)
    requires
        cfg.wf(),
        cfg.in_bounds(p),
        cfg.in_bounds(q),
        p != q,
    ensures
        cfg.idx(p) != cfg.idx(q),
{
    if cfg.idx(p) == cfg.idx(q) {
        lemma_idx_injective(cfg, p, q);
    }
}

/// `pos_at` inverts `idx`: every flat index inside the board denotes one
/// in-bounds position.
pub proof fn lemma_pos_at(cfg: BoardConfig, i: int)
    requires
        cfg.wf(),
        0 <= i < cfg.area(),
    ensures
        cfg.in_bounds(cfg.pos_at(i)),
        cfg.idx(cfg.pos_at(i)) == i,
{
    let w = cfg.width as int;
    lemma_fundamental_div_mod(i, w);
    assert(0 <= i % w < w) by (nonlinear_arith)
        requires
            w >= 1,
            0 <= i,
    {
        lemma_fundamental_div_mod(i, w);
    }
    assert(0 <= i / w < cfg.height) by (nonlinear_arith)
        requires
            w >= 1,
            0 <= i < w * cfg.height,
            i == w * (i / w) + i % w,
            0 <= i % w < w,
    {
    }
    assert(cfg.pos_at(i).x == i % w);
    assert(cfg.pos_at(i).y == i / w);
    assert((i / w) * w == w * (i / w)) by (nonlinear_arith) {}
    assert(cfg.idx(cfg.pos_at(i)) == i);
}

} // verus!
