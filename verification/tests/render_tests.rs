use snake_core::board::CellState;
use snake_core::geometry::{BoardConfig, Pos};
use snake_core::render::{cell_glyph, screen_position, Glyph};

fn cfg() -> BoardConfig {
    BoardConfig { width: 10, height: 8, wrap_horizontal: false, wrap_vertical: false }
}

#[test]
fn wall_corners_are_told_apart() {
    let c = cfg();
    assert_eq!(cell_glyph(c, Pos { x: 0, y: 0 }, CellState::Wall), Glyph::CornerTopLeft);
    assert_eq!(cell_glyph(c, Pos { x: 9, y: 0 }, CellState::Wall), Glyph::CornerTopRight);
    assert_eq!(cell_glyph(c, Pos { x: 0, y: 7 }, CellState::Wall), Glyph::CornerBottomLeft);
    assert_eq!(cell_glyph(c, Pos { x: 9, y: 7 }, CellState::Wall), Glyph::CornerBottomRight);
}

#[test]
fn wall_edges_are_told_apart() {
    let c = cfg();
    assert_eq!(cell_glyph(c, Pos { x: 4, y: 0 }, CellState::Wall), Glyph::EdgeHorizontal);
    assert_eq!(cell_glyph(c, Pos { x: 4, y: 7 }, CellState::Wall), Glyph::EdgeHorizontal);
    assert_eq!(cell_glyph(c, Pos { x: 0, y: 3 }, CellState::Wall), Glyph::EdgeVertical);
    assert_eq!(cell_glyph(c, Pos { x: 9, y: 3 }, CellState::Wall), Glyph::EdgeVertical);
}

#[test]
fn content_cells_have_their_markers() {
    let c = cfg();
    assert_eq!(cell_glyph(c, Pos { x: 3, y: 3 }, CellState::Apple), Glyph::AppleMark);
    assert_eq!(cell_glyph(c, Pos { x: 3, y: 3 }, CellState::SnakeBody), Glyph::SnakeBlock);
    assert_eq!(cell_glyph(c, Pos { x: 3, y: 3 }, CellState::SnakeHead), Glyph::SnakeBlock);
    assert_eq!(cell_glyph(c, Pos { x: 3, y: 3 }, CellState::Empty), Glyph::Blank);
}

#[test]
fn screen_positions_are_one_based_and_double_width() {
    let c = cfg();
    assert_eq!(screen_position(c, Pos { x: 0, y: 0 }), (1, 1));
    assert_eq!(screen_position(c, Pos { x: 3, y: 2 }), (7, 3));
    assert_eq!(screen_position(c, Pos { x: 9, y: 7 }), (19, 8));
}
