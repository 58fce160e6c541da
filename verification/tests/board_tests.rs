use snake_core::board::{Board, CellState};
use snake_core::geometry::{BoardConfig, Pos};

fn closed_cfg() -> BoardConfig {
    BoardConfig { width: 10, height: 8, wrap_horizontal: false, wrap_vertical: false }
}

#[test]
fn draw_board_closed_arena_walls() {
    let mut b = Board::new(closed_cfg());
    b.draw_board();
    assert_eq!(b.get(Pos { x: 0, y: 0 }), CellState::Wall);
    assert_eq!(b.get(Pos { x: 9, y: 0 }), CellState::Wall);
    assert_eq!(b.get(Pos { x: 0, y: 7 }), CellState::Wall);
    assert_eq!(b.get(Pos { x: 9, y: 7 }), CellState::Wall);
    assert_eq!(b.get(Pos { x: 5, y: 0 }), CellState::Wall);
    assert_eq!(b.get(Pos { x: 5, y: 7 }), CellState::Wall);
    assert_eq!(b.get(Pos { x: 0, y: 3 }), CellState::Wall);
    assert_eq!(b.get(Pos { x: 9, y: 3 }), CellState::Wall);
    for y in 1..7u16 {
        for x in 1..9u16 {
            assert_eq!(b.get(Pos { x, y }), CellState::Empty);
        }
    }
}

#[test]
fn draw_board_vertical_wrap_opens_top_and_bottom() {
    let cfg = BoardConfig { width: 10, height: 8, wrap_horizontal: false, wrap_vertical: true };
    let mut b = Board::new(cfg);
    b.draw_board();
    assert_eq!(b.get(Pos { x: 5, y: 0 }), CellState::Empty);
    assert_eq!(b.get(Pos { x: 5, y: 7 }), CellState::Empty);
    assert_eq!(b.get(Pos { x: 0, y: 3 }), CellState::Wall);
    assert_eq!(b.get(Pos { x: 9, y: 3 }), CellState::Wall);
}

#[test]
fn mark_sets_cell_and_dirty_flag() {
    let mut b = Board::new(closed_cfg());
    b.draw_board();
    let _ = b.take_dirty();
    b.mark(Pos { x: 3, y: 2 }, CellState::Apple);
    assert_eq!(b.get(Pos { x: 3, y: 2 }), CellState::Apple);
    let report = b.take_dirty();
    assert_eq!(report.len(), 1);
    assert_eq!(report[0], (Pos { x: 3, y: 2 }, CellState::Apple));
}

#[test]
fn take_dirty_reports_in_index_order() {
    let mut b = Board::new(closed_cfg());
    b.draw_board();
    let _ = b.take_dirty();
    b.mark(Pos { x: 7, y: 5 }, CellState::SnakeHead);
    b.mark(Pos { x: 1, y: 1 }, CellState::Apple);
    b.mark(Pos { x: 2, y: 1 }, CellState::SnakeBody);
    let report = b.take_dirty();
    assert_eq!(report.len(), 3);
    assert_eq!(report[0], (Pos { x: 1, y: 1 }, CellState::Apple));
    assert_eq!(report[1], (Pos { x: 2, y: 1 }, CellState::SnakeBody));
    assert_eq!(report[2], (Pos { x: 7, y: 5 }, CellState::SnakeHead));
}

#[test]
fn take_dirty_drain_is_idempotent() {
    let mut b = Board::new(closed_cfg());
    b.draw_board();
    let first = b.take_dirty();
    assert_eq!(first.len(), 10 * 8);
    let second = b.take_dirty();
    assert!(second.is_empty());
    b.mark(Pos { x: 4, y: 4 }, CellState::Apple);
    let third = b.take_dirty();
    assert_eq!(third.len(), 1);
    let fourth = b.take_dirty();
    assert!(fourth.is_empty());
}

#[test]
fn coordinate_transforms() {
    let b = Board::new(closed_cfg());
    assert!(b.in_bounds(Pos { x: 0, y: 0 }));
    assert!(b.in_bounds(Pos { x: 9, y: 7 }));
    assert!(!b.in_bounds(Pos { x: 10, y: 0 }));
    assert!(!b.in_bounds(Pos { x: 0, y: 8 }));
    assert_eq!(b.index_of(Pos { x: 0, y: 0 }), 0);
    assert_eq!(b.index_of(Pos { x: 3, y: 2 }), 23);
    assert_eq!(b.index_of(Pos { x: 9, y: 7 }), 79);
}

#[test]
fn fresh_board_is_clean_and_empty() {
    let mut b = Board::new(closed_cfg());
    assert_eq!(b.get(Pos { x: 0, y: 0 }), CellState::Empty);
    assert!(b.take_dirty().is_empty());
}
