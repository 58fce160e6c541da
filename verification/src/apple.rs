//! The apple manager: directed nudging and random relocation.
//!
//! The apple is a single optional interior cell. Relocation samples a fresh
//! interior cell and never returns the cell the apple just left; the board
//! cell is only painted when it is free, so an apple may sit hidden under the
//! snake until the body moves off it (a quirk kept from the original rules).

use vstd::prelude::*;
use crate::geometry::{Pos, Direction, BoardConfig};
use crate::geometry::lemma_interior_not_wall;
use crate::board::{Board, CellState};
use crate::rng::rand_range_u16;

verus! {

broadcast use lemma_interior_not_wall;

/// Where a nudge in direction `d` puts an apple at `a`: one cell over if that
/// stays inside the playable interior, otherwise unmoved.
pub open spec fn nudge_target(cfg: BoardConfig, a: Pos, d: Direction) -> Pos {
    match d {
        Direction::Right => if a.x < cfg.width - 2 {
            Pos { x: (a.x + 1) as u16, y: a.y }
        } else {
            a
        },
        Direction::Left => if a.x > 1 {
            Pos { x: (a.x - 1) as u16, y: a.y }
        } else {
            a
        },
        Direction::Down => if a.y < cfg.height - 2 {
            Pos { x: a.x, y: (a.y + 1) as u16 }
        } else {
            a
        },
        Direction::Up => if a.y > 1 {
            Pos { x: a.x, y: (a.y - 1) as u16 }
        } else {
            a
        },
    }
}

/// The cell array after the apple moves from `prev` to `target`: the vacated
/// cell is blanked if it actually showed the apple, and the target cell is
/// painted only if it is free (a covered apple stays hidden under the snake).
pub open spec fn placed_cells(b: Board, prev: Option<Pos>, target: Pos) -> Seq<CellState> {
    let mid = if prev is Some && b.cell_at(prev->0) == CellState::Apple {
        b.cells().update(b.config().idx(prev->0), CellState::Empty)
    } else {
        b.cells()
    };
    if mid[b.config().idx(target)] == CellState::Empty {
        mid.update(b.config().idx(target), CellState::Apple)
    } else {
        mid
    }
}

/// Moves the apple to `target`, blanking the cell it leaves and painting the
/// one it reaches when that cell is free.
pub fn place_apple(board: &mut Board, apple: &mut Option<Pos>, target: Pos)
    requires
        old(board).wf(),
        (*old(apple)) is Some ==> old(board).config().interior((*old(apple))->0),
        old(board).config().interior(target),
    ensures
        final(board).wf(),
        final(board).config() == old(board).config(),
        *final(apple) == Some(target),
        final(board).cells() == placed_cells(*old(board), *old(apple), target),
        forall|q: Pos| #![auto]
            old(board).config().in_bounds(q) && old(board).is_dirty(q) ==> final(board).is_dirty(q),
        forall|q: Pos| #![auto]
            old(board).config().in_bounds(q) && final(board).cell_at(q) != old(board).cell_at(q)
                ==> final(board).is_dirty(q),
{
    if let Some(a) = *apple {
        if board.get(a) == CellState::Apple {
            board.mark(a, CellState::Empty);
        }
    }
    if board.get(target) == CellState::Empty {
        board.mark(target, CellState::Apple);
    }
    *apple = Some(target);
}

/// Nudges the apple one cell in `d`, staying inside the playable interior; a
/// nudge off the interior edge is a no-op. Without an apple nothing happens.
pub fn move_apple(board: &mut Board, apple: &mut Option<Pos>, dir: Direction)
    requires
        old(board).wf(),
        (*old(apple)) is Some ==> old(board).config().interior((*old(apple))->0),
    ensures
        final(board).wf(),
        final(board).config() == old(board).config(),
        (*old(apple)) is None ==> *final(apple) == *old(apple) && final(board).cells() == old(
            board,
        ).cells() && final(board).dirty() == old(board).dirty(),
        (*old(apple)) is Some ==> *final(apple) == Some(
            nudge_target(old(board).config(), (*old(apple))->0, dir),
        ) && final(board).cells() == placed_cells(
            *old(board),
            *old(apple),
            nudge_target(old(board).config(), (*old(apple))->0, dir),
        ),
        (*final(apple)) is Some ==> old(board).config().interior((*final(apple))->0),
        forall|q: Pos| #![auto]
            old(board).config().in_bounds(q) && old(board).is_dirty(q) ==> final(board).is_dirty(q),
        forall|q: Pos| #![auto]
            old(board).config().in_bounds(q) && final(board).cell_at(q) != old(board).cell_at(q)
                ==> final(board).is_dirty(q),
{
    let a = match *apple {
        None => { return ; },
        Some(a) => a,
    };
    let cfg = board.get_config();
    let t = match dir {
        Direction::Right => if a.x < cfg.width - 2 {
            Pos { x: a.x + 1, y: a.y }
        } else {
            a
        },
        Direction::Left => if a.x > 1 {
            Pos { x: a.x - 1, y: a.y }
        } else {
            a
        },
        Direction::Down => if a.y < cfg.height - 2 {
            Pos { x: a.x, y: a.y + 1 }
        } else {
            a
        },
        Direction::Up => if a.y > 1 {
            Pos { x: a.x, y: a.y - 1 }
        } else {
            a
        },
    };
    place_apple(board, apple, t);
}

/// The next interior cell after `p` in row-major order, cycling back to the
/// first; used to dodge the cell an apple must not land on again.
fn next_interior(p: Pos, cfg: BoardConfig) -> (q: Pos)
    requires
        cfg.wf(),
        cfg.interior(p),
    ensures
        cfg.interior(q),
        q != p,
{
    if p.x < cfg.width - 2 {
        Pos { x: p.x + 1, y: p.y }
    } else if p.y < cfg.height - 2 {
        Pos { x: 1, y: p.y + 1 }
    } else {
        Pos { x: 1, y: 1 }
    }
}

/// Relocates the apple to a uniformly sampled interior cell — never a wall
/// cell, and never the cell the apple currently sits on.
pub fn replace_apple(board: &mut Board, apple: &mut Option<Pos>, rng: &mut rand::rngs::ThreadRng)
    requires
        old(board).wf(),
        (*old(apple)) is Some ==> old(board).config().interior((*old(apple))->0),
    ensures
        final(board).wf(),
        final(board).config() == old(board).config(),
        (*final(apple)) is Some,
        old(board).config().interior((*final(apple))->0),
        !old(board).config().is_wall((*final(apple))->0),
        (*old(apple)) is Some ==> (*final(apple))->0 != (*old(apple))->0,
        final(board).cells() == placed_cells(*old(board), *old(apple), (*final(apple))->0),
        forall|q: Pos| #![auto]
            old(board).config().in_bounds(q) && old(board).is_dirty(q) ==> final(board).is_dirty(q),
        forall|q: Pos| #![auto]
            old(board).config().in_bounds(q) && final(board).cell_at(q) != old(board).cell_at(q)
                ==> final(board).is_dirty(q),
{
    let cfg = board.get_config();
    let rx = rand_range_u16(rng, 1, cfg.width - 1);
    let ry = rand_range_u16(rng, 1, cfg.height - 1);
    let mut target = Pos { x: rx, y: ry };
    if let Some(a) = *apple {
        if target == a {
            target = next_interior(target, cfg);
        }
    }
    place_apple(board, apple, target);
}

} // verus!
