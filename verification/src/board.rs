//! The arena: a row-major grid of cell states with per-cell dirty flags.
//!
//! Every mutation goes through [`Board::mark`], which records the touched cell
//! in the dirty set; a renderer drains the dirty set with
//! [`Board::take_dirty`] and repaints only what changed.

use vstd::prelude::*;
use vstd::arithmetic::div_mod::lemma_fundamental_div_mod_converse;
use crate::geometry::{Pos, BoardConfig};
use crate::geometry::{lemma_idx_bounds, lemma_idx_distinct, lemma_pos_at};

verus! {

broadcast use lemma_idx_bounds;

/// What one grid cell holds.
#[derive(Clone, Copy, PartialEq, Eq, Structural, Debug)]
pub enum CellState {
    Empty,
    Wall,
    Apple,
    SnakeBody,
    SnakeHead,
}

/// The state a freshly drawn board gives a cell: wall on the closed parts of
/// the border, empty everywhere else.
pub open spec fn base_cell(cfg: BoardConfig, p: Pos) -> CellState {
    if cfg.is_wall(p) {
        CellState::Wall
    } else {
        CellState::Empty
    }
}

/// A fixed-size grid of [`CellState`] plus the dirty flags that drive
/// incremental redraw.
pub struct Board {
    cfg: BoardConfig,
    cells: Vec<CellState>,
    dirty: Vec<bool>,
}

/// The dirty cells among the first `n` flat indices of `b`, in index order,
/// each paired with its current state.
pub open spec fn dirty_report_upto(b: Board, n: int) -> Seq<(Pos, CellState)>
    decreases n,
{
    if n <= 0 {
        Seq::empty()
    } else {
        let rest = dirty_report_upto(b, n - 1);
        if b.dirty()[n - 1] {
            rest.push((b.config().pos_at(n - 1), b.cells()[n - 1]))
        } else {
            rest
        }
    }
}

/// Everything a renderer must repaint: the dirty cells of `b` in index order.
pub open spec fn dirty_report(b: Board) -> Seq<(Pos, CellState)> {
    dirty_report_upto(b, b.config().area())
}

impl Board {
    pub closed spec fn config(self) -> BoardConfig {
        self.cfg
    }

    pub closed spec fn cells(self) -> Seq<CellState> {
        self.cells@
    }

    pub closed spec fn dirty(self) -> Seq<bool> {
        self.dirty@
    }

    pub open spec fn wf(self) -> bool {
        self.config().wf()
        && self.cells().len() == self.config().area()
        && self.dirty().len() == self.config().area()
    }

    pub open spec fn cell_at(self, p: Pos) -> CellState {
        self.cells()[self.config().idx(p)]
    }

    pub open spec fn is_dirty(self, p: Pos) -> bool {
        self.dirty()[self.config().idx(p)]
    }

    /// An all-empty, all-clean board of the configured size.
    pub fn new(cfg: BoardConfig) -> (b: Board)
        requires
            cfg.wf(),
        ensures
            b.wf(),
            b.config() == cfg,
            forall|p: Pos| cfg.in_bounds(p) ==> #[trigger] b.cell_at(p) == CellState::Empty,
            forall|p: Pos| cfg.in_bounds(p) ==> !(#[trigger] b.is_dirty(p)),
    {
        let n: usize = (cfg.width as usize) * (cfg.height as usize);
        let mut cells: Vec<CellState> = Vec::new();
        let mut dirty: Vec<bool> = Vec::new();
        while cells.len() < n
            invariant
                cells.len() <= n,
                dirty.len() == cells.len(),
                forall|j: int| 0 <= j < cells.len() ==> cells@[j] == CellState::Empty,
                forall|j: int| 0 <= j < dirty.len() ==> dirty@[j] == false,
            decreases n - cells.len(),
        {
            cells.push(CellState::Empty);
            dirty.push(false);
        }
        Board { cfg, cells, dirty }
    }

    pub fn get_config(&self) -> (c: BoardConfig)
        ensures
            c == self.config(),
    {
        self.cfg
    }

    /// Whether `p` lies on the board; the other operations ask callers to
    /// have checked this.
    pub fn in_bounds(&self, p: Pos) -> (r: bool)
        ensures
            r == self.config().in_bounds(p),
    {
        p.x < self.cfg.width && p.y < self.cfg.height
    }

    /// The flat row-major index of an in-bounds position.
    pub fn index_of(&self, p: Pos) -> (i: u16)
        requires
            self.wf(),
            self.config().in_bounds(p),
        ensures
            i == self.config().idx(p),
    {
        proof {
            assert(0 <= self.config().idx(p) < self.config().area());
        }
        p.x + p.y * self.cfg.width
    }

    /// Reads one cell; callers must stay in bounds.
    pub fn get(&self, p: Pos) -> (s: CellState)
        requires
            self.wf(),
            self.config().in_bounds(p),
        ensures
            s == self.cell_at(p),
    {
        proof {
            assert(0 <= self.config().idx(p) < self.config().area());
        }
        let i: usize = (p.x as usize) + (p.y as usize) * (self.cfg.width as usize);
        self.cells[i]
    }

    /// Sets one cell and flags it dirty; callers must stay in bounds.
    pub fn mark(&mut self, p: Pos, s: CellState)
        requires
            old(self).wf(),
            old(self).config().in_bounds(p),
        ensures
            final(self).wf(),
            final(self).config() == old(self).config(),
            final(self).cells() == old(self).cells().update(old(self).config().idx(p), s),
            final(self).dirty() == old(self).dirty().update(old(self).config().idx(p), true),
            final(self).cell_at(p) == s,
            final(self).is_dirty(p),
            forall|q: Pos| #![auto]
                old(self).config().in_bounds(q) && q != p ==> final(self).cell_at(q) == old(
                    self,
                ).cell_at(q) && final(self).is_dirty(q) == old(self).is_dirty(q),
    {
        proof {
            assert(0 <= old(self).config().idx(p) < old(self).config().area());
        }
        let i: usize = (p.x as usize) + (p.y as usize) * (self.cfg.width as usize);
        self.cells.set(i, s);
        self.dirty.set(i, true);
        proof {
            assert forall|q: Pos|
                old(self).config().in_bounds(q) && q != p implies self.cell_at(q) == old(
                self,
            ).cell_at(q) && self.is_dirty(q) == old(self).is_dirty(q) by {
                lemma_idx_distinct(self.cfg, q, p);
            }
        }
    }

    /// Repaints the whole grid to its base state (walls on the closed borders,
    /// empty elsewhere) and flags every cell dirty, so the next drain is a
    /// full paint.
    pub fn draw_board(&mut self)
        requires
            old(self).wf(),
        ensures
            final(self).wf(),
            final(self).config() == old(self).config(),
            forall|p: Pos|
                old(self).config().in_bounds(p) ==> #[trigger] final(self).cell_at(p) == base_cell(
                    old(self).config(),
                    p,
                ),
            forall|p: Pos| old(self).config().in_bounds(p) ==> #[trigger] final(self).is_dirty(p),
    {
        let cfg = self.cfg;
        let w = cfg.width;
        let h = cfg.height;
        let mut y: u16 = 0;
        let mut i: usize = 0;
        while y < h
            invariant
                self.cfg == cfg,
                cfg.wf(),
                w == cfg.width,
                h == cfg.height,
                self.cells@.len() == cfg.area(),
                self.dirty@.len() == cfg.area(),
                y <= h,
                i == y * w,
                forall|p: Pos| #![auto]
                    cfg.in_bounds(p) && p.y < y ==> self.cells@[cfg.idx(p)] == base_cell(cfg, p)
                        && self.dirty@[cfg.idx(p)],
            decreases h - y,
        {
            let mut x: u16 = 0;
            while x < w
                invariant
                    self.cfg == cfg,
                    cfg.wf(),
                    w == cfg.width,
                    h == cfg.height,
                    self.cells@.len() == cfg.area(),
                    self.dirty@.len() == cfg.area(),
                    y < h,
                    x <= w,
                    i == y * w + x,
                    forall|p: Pos| #![auto]
                        cfg.in_bounds(p) && (p.y < y || (p.y == y && p.x < x)) ==> self.cells@[cfg.idx(
                            p,
                        )] == base_cell(cfg, p) && self.dirty@[cfg.idx(p)],
                decreases w - x,
            {
                let here = Pos { x, y };
                proof {
                    assert(cfg.idx(here) == i);
                }
                let is_w = (!cfg.wrap_horizontal && (x == 0 || x == w - 1)) || (!cfg.wrap_vertical
                    && (y == 0 || y == h - 1));
                let s = if is_w {
                    CellState::Wall
                } else {
                    CellState::Empty
                };
                self.cells.set(i, s);
                self.dirty.set(i, true);
                proof {
                    assert forall|p: Pos|
                        cfg.in_bounds(p) && (p.y < y || (p.y == y && p.x < x + 1)) implies self.cells@[cfg.idx(
                        p,
                    )] == base_cell(cfg, p) && self.dirty@[cfg.idx(p)] by {
                        if p != here {
                            lemma_idx_distinct(cfg, p, here);
                        }
                    }
                }
                x = x + 1;
                i = i + 1;
            }
            proof {
                assert(((y + 1) as int) * (w as int) == y * w + w) by (nonlinear_arith) {}
            }
            y = y + 1;
        }
    }

    /// Drains the dirty set: returns every dirty cell with its current state,
    /// in index order, and clears all dirty flags. A second drain right after
    /// therefore reports nothing.
    pub fn take_dirty(&mut self) -> (r: Vec<(Pos, CellState)>)
        requires
            old(self).wf(),
        ensures
            final(self).wf(),
            final(self).config() == old(self).config(),
            final(self).cells() == old(self).cells(),
            forall|p: Pos| old(self).config().in_bounds(p) ==> !(#[trigger] final(self).is_dirty(p)),
            r@ == dirty_report(*old(self)),
    {
        let cfg = self.cfg;
        let w = cfg.width;
        let h = cfg.height;
        let mut out: Vec<(Pos, CellState)> = Vec::new();
        let mut y: u16 = 0;
        let mut i: usize = 0;
        while y < h
            invariant
                self.cfg == cfg,
                cfg == old(self).config(),
                cfg.wf(),
                w == cfg.width,
                h == cfg.height,
                self.cells@ == old(self).cells(),
                self.cells@.len() == cfg.area(),
                self.dirty@.len() == cfg.area(),
                y <= h,
                i == y * w,
                forall|j: int| 0 <= j < i ==> self.dirty@[j] == false,
                forall|j: int| i <= j < cfg.area() ==> self.dirty@[j] == old(self).dirty()[j],
                out@ == dirty_report_upto(*old(self), i as int),
            decreases h - y,
        {
            let mut x: u16 = 0;
            while x < w
                invariant
                    self.cfg == cfg,
                    cfg == old(self).config(),
                    cfg.wf(),
                    w == cfg.width,
                    h == cfg.height,
                    self.cells@ == old(self).cells(),
                    self.cells@.len() == cfg.area(),
                    self.dirty@.len() == cfg.area(),
                    y < h,
                    x <= w,
                    i == y * w + x,
                    forall|j: int| 0 <= j < i ==> self.dirty@[j] == false,
                    forall|j: int| i <= j < cfg.area() ==> self.dirty@[j] == old(self).dirty()[j],
                    out@ == dirty_report_upto(*old(self), i as int),
                decreases w - x,
            {
                let here = Pos { x, y };
                proof {
                    assert(cfg.idx(here) == i);
                    lemma_fundamental_div_mod_converse(i as int, w as int, y as int, x as int);
                    assert(cfg.pos_at(i as int) == here);
                }
                if self.dirty[i] {
                    self.dirty.set(i, false);
                    out.push((here, self.cells[i]));
                }
                x = x + 1;
                i = i + 1;
            }
            proof {
                assert(((y + 1) as int) * (w as int) == y * w + w) by (nonlinear_arith) {}
            }
            y = y + 1;
        }
        proof {
            assert((h as int) * (w as int) == (w as int) * (h as int)) by (nonlinear_arith) {}
            assert(i as int == cfg.area());
            assert forall|p: Pos| cfg.in_bounds(p) implies !(#[trigger] self.is_dirty(p)) by {
                assert(0 <= cfg.idx(p) < cfg.area());
            }
        }
        out
    }
}

/// A board whose dirty set is empty reports nothing to the renderer: draining
/// is idempotent, a second [`Board::take_dirty`] right after a first returns
/// the empty sequence.
pub proof fn lemma_clean_board_reports_nothing(b: Board)
    requires
        b.wf(),
        forall|p: Pos| b.config().in_bounds(p) ==> !(#[trigger] b.is_dirty(p)),
    ensures
        dirty_report(b) == Seq::<(Pos, CellState)>::empty(),
{
    lemma_clean_board_reports_upto(b, b.config().area());
}

proof fn lemma_clean_board_reports_upto(b: Board, n: int)
    requires
        b.wf(),
        forall|p: Pos| b.config().in_bounds(p) ==> !(#[trigger] b.is_dirty(p)),
        n <= b.config().area(),
    ensures
        dirty_report_upto(b, n) == Seq::<(Pos, CellState)>::empty(),
    decreases n,
{
    if n > 0 {
        lemma_clean_board_reports_upto(b, n - 1);
        lemma_pos_at(b.config(), n - 1);
        assert(!b.is_dirty(b.config().pos_at(n - 1)));
    }
}

} // verus!
