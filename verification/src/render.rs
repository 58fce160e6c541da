//! What each cell should be drawn as, and where on the screen.
//!
//! The terminal layer maps these glyph classes to box-drawing characters and
//! colors; the classification itself — corners, edges, apple, snake, blank —
//! is decided here so the drawing loop outside stays a bare lookup.

use vstd::prelude::*;
use crate::geometry::{Pos, BoardConfig};
use crate::board::CellState;

verus! {

/// The drawable classes of a cell.
#[derive(Clone, Copy, PartialEq, Eq, Structural, Debug)]
pub enum Glyph {
    CornerTopLeft,
    CornerTopRight,
    CornerBottomLeft,
    CornerBottomRight,
    EdgeHorizontal,
    EdgeVertical,
    AppleMark,
    SnakeBlock,
    Blank,
}

/// The glyph class of a cell in state `s` at position `p`: wall cells are
/// told apart into the four corners, the horizontal and the vertical edges;
/// apple and snake cells get their markers; everything else is blank.
pub open spec fn spec_glyph(cfg: BoardConfig, p: Pos, s: CellState) -> Glyph {
    match s {
        CellState::Wall => if p.x == 0 && p.y == 0 {
            Glyph::CornerTopLeft
        } else if p.x == cfg.width - 1 && p.y == 0 {
            Glyph::CornerTopRight
        } else if p.x == 0 && p.y == cfg.height - 1 {
            Glyph::CornerBottomLeft
        } else if p.x == cfg.width - 1 && p.y == cfg.height - 1 {
            Glyph::CornerBottomRight
        } else if p.y == 0 || p.y == cfg.height - 1 {
            Glyph::EdgeHorizontal
        } else {
            Glyph::EdgeVertical
        },
        CellState::Apple => Glyph::AppleMark,
        CellState::SnakeBody => Glyph::SnakeBlock,
        CellState::SnakeHead => Glyph::SnakeBlock,
        CellState::Empty => Glyph::Blank,
    }
}

/// Classifies one cell for drawing.
pub fn cell_glyph(cfg: BoardConfig, p: Pos, s: CellState) -> (g: Glyph)
    requires
        cfg.wf(),
        cfg.in_bounds(p),
    ensures
        g == spec_glyph(cfg, p, s),
{
    match s {
        CellState::Wall => if p.x == 0 && p.y == 0 {
            Glyph::CornerTopLeft
        } else if p.x == cfg.width - 1 && p.y == 0 {
            Glyph::CornerTopRight
        } else if p.x == 0 && p.y == cfg.height - 1 {
            Glyph::CornerBottomLeft
        } else if p.x == cfg.width - 1 && p.y == cfg.height - 1 {
            Glyph::CornerBottomRight
        } else if p.y == 0 || p.y == cfg.height - 1 {
            Glyph::EdgeHorizontal
        } else {
            Glyph::EdgeVertical
        },
        CellState::Apple => Glyph::AppleMark,
        CellState::SnakeBody => Glyph::SnakeBlock,
        CellState::SnakeHead => Glyph::SnakeBlock,
        CellState::Empty => Glyph::Blank,
    }
}

/// The one-based terminal coordinates of a cell: every cell is two characters
/// wide, so column `x` starts at character `2 x + 1`, and row `y` is line
/// `y + 1`.
pub fn screen_position(cfg: BoardConfig, p: Pos) -> (rc: (u16, u16))
    requires
        cfg.wf(),
        cfg.in_bounds(p),
    ensures
        rc.0 == 2 * p.x + 1,
        rc.1 == p.y + 1,
{
    proof {
        assert(3 * cfg.width <= cfg.width * cfg.height) by (nonlinear_arith)
            requires
                cfg.width >= 0,
                cfg.height >= 3,
        {
        }
    }
    (2 * p.x + 1, p.y + 1)
}

} // verus!
